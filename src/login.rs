//! The login step: the field set posted to the login endpoint, and the test
//! of the response for the success marker.
use vstd::prelude::*;
use crate::form::{
    fields_view, has_name, input_pairs, inputs_complete, lemma_put_all, names_unique, put_all,
    put_inputs, value_of, FieldsView, MalformedPage, NAME_ATTR, VALUE_ATTR,
};
use crate::page::{attr_pair_values, opt_str_pairs, select_attr_pairs};
use crate::text::{has_infix, text_contains};

verus! {

/// The field that carries the user name.
pub const LOGIN_ID_FIELD: &'static str = "mli";

/// The field that carries the password.
pub const PASSWORD_FIELD: &'static str = "password";

/// The field that names the login action.
pub const LOGIN_ACTION_FIELD: &'static str = "dologin";

/// The value of the login action field.
pub const LOGIN_ACTION: &'static str = "Login";

/// The selector of the hidden inputs replayed with the credentials.
pub const HIDDEN_INPUTS: &'static str = "input[type='hidden']";

/// The text that the login response holds when the credentials were taken.
pub const AUTHENTICATED_MARKER: &'static str = "You have successfully authenticated";

/// The three fields that a login starts from.
pub open spec fn seed_fields(username: Seq<char>, password: Seq<char>) -> FieldsView {
    seq![
        (LOGIN_ID_FIELD@, username),
        (PASSWORD_FIELD@, password),
        (LOGIN_ACTION_FIELD@, LOGIN_ACTION@),
    ]
}

/// The login fields: the seeded three overlaid with every hidden input, a
/// hidden input replacing a seeded field of the same name. `None` when a
/// hidden input lacks a name or a value.
pub open spec fn login_spec(
    username: Seq<char>,
    password: Seq<char>,
    hidden: Seq<(Option<Seq<char>>, Option<Seq<char>>)>,
) -> Option<FieldsView> {
    if inputs_complete(hidden) {
        Some(put_all(seed_fields(username, password), input_pairs(hidden)))
    } else {
        None
    }
}

/// No complete input named otherwise than `x` yields a pair named `x`.
proof fn lemma_name_not_overlaid(hidden: Seq<(Option<Seq<char>>, Option<Seq<char>>)>, x: Seq<char>)
    requires
        inputs_complete(hidden),
    ensures
        (forall|i: int| 0 <= i < hidden.len() ==> hidden[i].0 != Some(x)) ==> forall|i: int|
            0 <= i < hidden.len() ==> #[trigger] input_pairs(hidden)[i].0 != x,
{
    assert forall|i: int| 0 <= i < hidden.len() && (forall|j: int| 0 <= j < hidden.len() ==> hidden[j].0 != Some(x))
        implies #[trigger] input_pairs(hidden)[i].0 != x by {
        assert(hidden[i].0 is Some);
        assert(hidden[i].0 != Some(x));
    }
}

/// The login fields keep the seeded three: each is present, and holds its
/// seeded value unless a hidden input of the same name overrides it; every
/// hidden input's name is present as well.
pub proof fn lemma_login_keeps_seeded_fields(
    username: Seq<char>,
    password: Seq<char>,
    hidden: Seq<(Option<Seq<char>>, Option<Seq<char>>)>,
)
    requires
        inputs_complete(hidden),
    ensures
        login_spec(username, password, hidden) is Some,
        ({
            let f = login_spec(username, password, hidden)->Some_0;
            &&& has_name(f, LOGIN_ID_FIELD@)
            &&& has_name(f, PASSWORD_FIELD@)
            &&& has_name(f, LOGIN_ACTION_FIELD@)
            &&& (forall|i: int| 0 <= i < hidden.len() ==> hidden[i].0 != Some(LOGIN_ID_FIELD@))
                ==> value_of(f, LOGIN_ID_FIELD@) == username
            &&& (forall|i: int| 0 <= i < hidden.len() ==> hidden[i].0 != Some(PASSWORD_FIELD@))
                ==> value_of(f, PASSWORD_FIELD@) == password
            &&& (forall|i: int| 0 <= i < hidden.len() ==> hidden[i].0 != Some(LOGIN_ACTION_FIELD@))
                ==> value_of(f, LOGIN_ACTION_FIELD@) == LOGIN_ACTION@
            &&& forall|i: int| 0 <= i < hidden.len() ==> has_name(f, #[trigger] hidden[i].0->Some_0)
        }),
{
    let m = seed_fields(username, password);
    let s = input_pairs(hidden);
    assert(LOGIN_ID_FIELD@.len() == 3 && PASSWORD_FIELD@.len() == 8 && LOGIN_ACTION_FIELD@.len() == 7)
        by {
        reveal_strlit("mli");
        reveal_strlit("password");
        reveal_strlit("dologin");
    }
    assert(names_unique(m));
    lemma_put_all(m, s);
    let f = put_all(m, s);
    assert(m[0].0 == LOGIN_ID_FIELD@ && m[1].0 == PASSWORD_FIELD@ && m[2].0 == LOGIN_ACTION_FIELD@);
    assert(has_name(m, LOGIN_ID_FIELD@) && has_name(m, PASSWORD_FIELD@) && has_name(m, LOGIN_ACTION_FIELD@));
    assert(has_name(f, LOGIN_ID_FIELD@) && has_name(f, PASSWORD_FIELD@) && has_name(f, LOGIN_ACTION_FIELD@));
    assert(value_of(m, LOGIN_ID_FIELD@) == username);
    assert(value_of(m, PASSWORD_FIELD@) == password);
    assert(value_of(m, LOGIN_ACTION_FIELD@) == LOGIN_ACTION@);
    assert((forall|i: int| 0 <= i < hidden.len() ==> hidden[i].0 != Some(LOGIN_ID_FIELD@)) ==> value_of(
        f,
        LOGIN_ID_FIELD@,
    ) == username) by {
        lemma_name_not_overlaid(hidden, LOGIN_ID_FIELD@);
    }
    assert((forall|i: int| 0 <= i < hidden.len() ==> hidden[i].0 != Some(PASSWORD_FIELD@)) ==> value_of(
        f,
        PASSWORD_FIELD@,
    ) == password) by {
        lemma_name_not_overlaid(hidden, PASSWORD_FIELD@);
    }
    assert((forall|i: int| 0 <= i < hidden.len() ==> hidden[i].0 != Some(LOGIN_ACTION_FIELD@))
        ==> value_of(f, LOGIN_ACTION_FIELD@) == LOGIN_ACTION@) by {
        lemma_name_not_overlaid(hidden, LOGIN_ACTION_FIELD@);
    }
    assert forall|i: int| 0 <= i < hidden.len() implies has_name(f, #[trigger] hidden[i].0->Some_0) by {
        let x = hidden[i].0->Some_0;
        assert(s[i].0 == x);
        assert(exists|j: int| 0 <= j < s.len() && s[j].0 == x);
        assert(has_name(put_all(m, s), x));
    }
}

/// The fields to post with the credentials, from the name/value attributes
/// of the login page's hidden inputs.
pub fn login_fields_from_inputs(
    username: &str,
    password: &str,
    hidden: &Vec<(Option<String>, Option<String>)>,
) -> (r: Result<Vec<(String, String)>, MalformedPage>)
    ensures
        match r {
            Ok(f) => login_spec(username@, password@, opt_str_pairs(hidden@)) == Some(
                fields_view(f@),
            ) && names_unique(fields_view(f@)),
            Err(_) => login_spec(username@, password@, opt_str_pairs(hidden@)) is None,
        },
{
    let mut fields: Vec<(String, String)> = Vec::new();
    fields.push((LOGIN_ID_FIELD.to_owned(), username.to_owned()));
    fields.push((PASSWORD_FIELD.to_owned(), password.to_owned()));
    fields.push((LOGIN_ACTION_FIELD.to_owned(), LOGIN_ACTION.to_owned()));
    proof {
        reveal_strlit("mli");
        reveal_strlit("password");
        reveal_strlit("dologin");
    }
    assert(fields_view(fields@) =~= seed_fields(username@, password@));
    assert(LOGIN_ID_FIELD@.len() == 3 && PASSWORD_FIELD@.len() == 8 && LOGIN_ACTION_FIELD@.len() == 7);
    assert(names_unique(fields_view(fields@)));
    match put_inputs(&mut fields, hidden) {
        Ok(()) => Ok(fields),
        Err(e) => Err(e),
    }
}

/// The login fields that the login page asks for.
pub open spec fn page_login_fields(page: Seq<char>, username: Seq<char>, password: Seq<char>) -> Option<
    FieldsView,
> {
    match attr_pair_values(page, HIDDEN_INPUTS@, NAME_ATTR@, VALUE_ATTR@) {
        Some(h) => login_spec(username, password, h),
        None => None,
    }
}

/// The fields to post with the credentials: the user name, the password
/// and the login action, overlaid with every hidden input of the login page.
pub fn login_fields(login_page: &str, username: &str, password: &str) -> (r: Result<
    Vec<(String, String)>,
    MalformedPage,
>)
    ensures
        match r {
            Ok(f) => page_login_fields(login_page@, username@, password@) == Some(fields_view(f@)),
            Err(_) => page_login_fields(login_page@, username@, password@) is None,
        },
{
    match select_attr_pairs(login_page, HIDDEN_INPUTS, NAME_ATTR, VALUE_ATTR) {
        Some(hidden) => login_fields_from_inputs(username, password, &hidden),
        None => Err(MalformedPage),
    }
}

/// Whether the login response says that the credentials were taken.
pub fn login_succeeded(response: &str) -> (r: bool)
    ensures
        r == has_infix(response@, AUTHENTICATED_MARKER@),
{
    text_contains(response, AUTHENTICATED_MARKER)
}

} // verus!
