//! Field lists of server-rendered forms, and the extraction of the form that
//! a page expects to be submitted next.
use vstd::prelude::*;
use crate::page::{attr_values, attr_pair_values, opt_strs, opt_str_pairs, select_attr, select_attr_pairs};

verus! {

/// A field list as seen in specifications: name and value of each field.
pub type FieldsView = Seq<(Seq<char>, Seq<char>)>;

/// The view of a list of fields.
pub open spec fn fields_view(v: Seq<(String, String)>) -> FieldsView {
    v.map_values(|p: (String, String)| (p.0@, p.1@))
}

/// No two fields share a name.
pub open spec fn names_unique(m: FieldsView) -> bool {
    forall|i: int, j: int| 0 <= i < m.len() && 0 <= j < m.len() && i != j ==> m[i].0 != m[j].0
}

/// Some field of `m` is named `k`.
pub open spec fn has_name(m: FieldsView, k: Seq<char>) -> bool {
    exists|i: int| 0 <= i < m.len() && m[i].0 == k
}

/// `m` with field `k` set to `v`: overwritten in place where present,
/// appended otherwise.
pub open spec fn put(m: FieldsView, k: Seq<char>, v: Seq<char>) -> FieldsView {
    if has_name(m, k) {
        let i = choose|i: int| 0 <= i < m.len() && m[i].0 == k;
        m.update(i, (k, v))
    } else {
        m.push((k, v))
    }
}

/// The fields that result from setting each pair of `s` in turn, starting
/// from `m`: a later pair with the same name wins.
pub open spec fn put_all(m: FieldsView, s: FieldsView) -> FieldsView
    decreases s.len(),
{
    if s.len() == 0 {
        m
    } else {
        put(put_all(m, s.drop_last()), s.last().0, s.last().1)
    }
}

/// Every input has both a name and a value.
pub open spec fn inputs_complete(s: Seq<(Option<Seq<char>>, Option<Seq<char>>)>) -> bool {
    forall|i: int| 0 <= i < s.len() ==> s[i].0 is Some && s[i].1 is Some
}

/// The name/value pairs of complete inputs.
pub open spec fn input_pairs(s: Seq<(Option<Seq<char>>, Option<Seq<char>>)>) -> FieldsView {
    s.map_values(|p: (Option<Seq<char>>, Option<Seq<char>>)| (p.0->Some_0, p.1->Some_0))
}

/// The page's form, from the action attributes of its forms in document
/// order and the name/value attributes of its hidden and submit inputs:
/// the last form's action, and every input, later ones winning. `None` when
/// there is no form, the last form has no action, or an input lacks a name
/// or a value.
pub open spec fn form_spec(
    actions: Seq<Option<Seq<char>>>,
    inputs: Seq<(Option<Seq<char>>, Option<Seq<char>>)>,
) -> Option<(Seq<char>, FieldsView)> {
    if actions.len() > 0 && actions.last() is Some && inputs_complete(inputs) {
        Some((actions.last()->Some_0, put_all(Seq::empty(), input_pairs(inputs))))
    } else {
        None
    }
}

/// The value of the field named `k`, where there is one.
pub open spec fn value_of(m: FieldsView, k: Seq<char>) -> Seq<char> {
    m[choose|i: int| 0 <= i < m.len() && m[i].0 == k].1
}

/// Setting a field keeps names unique, adds its name, sets its value and
/// leaves every other field's value alone.
proof fn lemma_put(m: FieldsView, k: Seq<char>, v: Seq<char>)
    requires
        names_unique(m),
    ensures
        names_unique(put(m, k, v)),
        forall|x: Seq<char>| has_name(put(m, k, v), x) <==> (has_name(m, x) || x == k),
        has_name(put(m, k, v), k) && value_of(put(m, k, v), k) == v,
        forall|x: Seq<char>|
            x != k && has_name(m, x) ==> value_of(put(m, k, v), x) == value_of(m, x),
{
    let r = put(m, k, v);
    if has_name(m, k) {
        let i = choose|i: int| 0 <= i < m.len() && m[i].0 == k;
        assert forall|x: Seq<char>| has_name(r, x) <==> (has_name(m, x) || x == k) by {
            if has_name(m, x) {
                let j = choose|j: int| 0 <= j < m.len() && m[j].0 == x;
                assert(r[j].0 == x);
            }
            if x == k {
                assert(r[i].0 == x);
            }
        }
    } else {
        assert forall|x: Seq<char>| has_name(r, x) <==> (has_name(m, x) || x == k) by {
            if has_name(m, x) {
                let j = choose|j: int| 0 <= j < m.len() && m[j].0 == x;
                assert(r[j].0 == x);
            }
            if x == k {
                assert(r[m.len() as int].0 == x);
            }
            if has_name(r, x) && x != k {
                let j = choose|j: int| 0 <= j < r.len() && r[j].0 == x;
                assert(m[j].0 == x);
            }
        }
    }
    assert forall|x: Seq<char>| x != k && has_name(m, x) implies value_of(r, x) == value_of(m, x) by {
        let j = choose|j: int| 0 <= j < m.len() && m[j].0 == x;
        let jr = choose|j: int| 0 <= j < r.len() && r[j].0 == x;
        assert(r[j].0 == x);
        assert(jr == j);
    }
    let jr = choose|j: int| 0 <= j < r.len() && r[j].0 == k;
    if has_name(m, k) {
        let i = choose|i: int| 0 <= i < m.len() && m[i].0 == k;
        assert(r[i].0 == k);
    } else {
        assert(r[m.len() as int].0 == k);
    }
}

/// Setting every pair of `s` in turn keeps names unique; the names after
/// are those of `m` and of `s`; a name of `s` holds the value of its last
/// pair; a name of `m` alone keeps its value.
#[verifier::rlimit(40)]
pub proof fn lemma_put_all(m: FieldsView, s: FieldsView)
    requires
        names_unique(m),
    ensures
        names_unique(put_all(m, s)),
        forall|x: Seq<char>|
            #![trigger has_name(put_all(m, s), x)]
            has_name(put_all(m, s), x) <==> (has_name(m, x) || exists|i: int|
                0 <= i < s.len() && s[i].0 == x),
        forall|i: int|
            0 <= i < s.len() && (forall|j: int| i < j < s.len() ==> s[j].0 != s[i].0) ==> value_of(
                put_all(m, s),
                #[trigger] s[i].0,
            ) == s[i].1,
        forall|x: Seq<char>|
            #![trigger has_name(m, x), value_of(put_all(m, s), x)]
            has_name(m, x) && (forall|i: int| 0 <= i < s.len() ==> s[i].0 != x) ==> value_of(
                put_all(m, s),
                x,
            ) == value_of(m, x),
    decreases s.len(),
{
    if s.len() > 0 {
        let init = s.drop_last();
        let before = put_all(m, init);
        lemma_put_all(m, init);
        lemma_put(before, s.last().0, s.last().1);
        let after = put_all(m, s);
        assert(after == put(before, s.last().0, s.last().1));
        assert forall|x: Seq<char>|
            has_name(after, x) <==> (has_name(m, x) || exists|i: int| 0 <= i < s.len() && s[i].0 == x) by {
            assert(has_name(before, x) <==> (has_name(m, x) || exists|i: int|
                0 <= i < init.len() && init[i].0 == x));
            if exists|i: int| 0 <= i < s.len() && s[i].0 == x {
                let i = choose|i: int| 0 <= i < s.len() && s[i].0 == x;
                if i < init.len() {
                    assert(init[i].0 == x);
                }
            }
            if exists|i: int| 0 <= i < init.len() && init[i].0 == x {
                let i = choose|i: int| 0 <= i < init.len() && init[i].0 == x;
                assert(s[i].0 == x);
            }
            if has_name(after, x) && !has_name(m, x) {
                assert(has_name(before, x) || x == s.last().0);
                if x == s.last().0 {
                    assert(s[s.len() - 1].0 == x);
                    assert(exists|i: int| 0 <= i < s.len() && s[i].0 == x);
                } else {
                    assert(has_name(before, x));
                    assert(exists|i: int| 0 <= i < init.len() && init[i].0 == x);
                    let i = choose|i: int| 0 <= i < init.len() && init[i].0 == x;
                    assert(s[i].0 == x);
                    assert(exists|i: int| 0 <= i < s.len() && s[i].0 == x);
                }
            }
        }
        assert forall|i: int|
            0 <= i < s.len() && (forall|j: int| i < j < s.len() ==> s[j].0 != s[i].0) implies value_of(
                after,
                #[trigger] s[i].0,
            ) == s[i].1 by {
            if i < init.len() {
                assert(s[s.len() - 1].0 != s[i].0);
                assert(init[i] == s[i]);
                assert forall|j: int| i < j < init.len() implies init[j].0 != init[i].0 by {
                    assert(init[j] == s[j]);
                }
                assert(value_of(before, init[i].0) == init[i].1);
                assert(has_name(before, init[i].0)) by {
                    assert(exists|k: int| 0 <= k < init.len() && init[k].0 == init[i].0);
                }
            }
        }
        assert forall|x: Seq<char>|
            has_name(m, x) && (forall|i: int| 0 <= i < s.len() ==> s[i].0 != x) implies value_of(after, x)
                == value_of(m, x) by {
            assert forall|i: int| 0 <= i < init.len() implies init[i].0 != x by {
                assert(init[i] == s[i]);
            }
            assert(value_of(before, x) == value_of(m, x));
            assert(s[s.len() - 1].0 != x);
            assert(has_name(before, x));
        }
    }
}

/// The form of any page: its target is the last form's action; its fields
/// are named exactly as the hidden and submit inputs found anywhere on the
/// page, decoy forms' inputs of other kinds not among them; and each field
/// holds the value of the last input of its name.
#[verifier::rlimit(40)]
pub proof fn lemma_form_replays_inputs(
    actions: Seq<Option<Seq<char>>>,
    inputs: Seq<(Option<Seq<char>>, Option<Seq<char>>)>,
    target: Seq<char>,
)
    requires
        actions.len() > 0,
        actions.last() == Some(target),
        inputs_complete(inputs),
    ensures
        form_spec(actions, inputs) is Some,
        form_spec(actions, inputs)->Some_0.0 == target,
        names_unique(form_spec(actions, inputs)->Some_0.1),
        forall|x: Seq<char>|
            has_name(form_spec(actions, inputs)->Some_0.1, x) <==> exists|i: int|
                0 <= i < inputs.len() && inputs[i].0 == Some(x),
        forall|i: int|
            0 <= i < inputs.len() && (forall|j: int| i < j < inputs.len() ==> inputs[j].0 != inputs[i].0)
                ==> value_of(form_spec(actions, inputs)->Some_0.1, #[trigger] inputs[i].0->Some_0)
                == inputs[i].1->Some_0,
{
    let s = input_pairs(inputs);
    let empty = Seq::<(Seq<char>, Seq<char>)>::empty();
    lemma_put_all(empty, s);
    let f = put_all(empty, s);
    assert(form_spec(actions, inputs) == Some((target, f)));
    assert forall|x: Seq<char>|
        has_name(f, x) <==> exists|i: int| 0 <= i < inputs.len() && inputs[i].0 == Some(x) by {
        assert(!has_name(empty, x));
        assert(has_name(f, x) <==> exists|i: int| 0 <= i < s.len() && s[i].0 == x);
        if has_name(f, x) {
            let i = choose|i: int| 0 <= i < s.len() && s[i].0 == x;
            assert(inputs[i].0 is Some);
            assert(inputs[i].0 == Some(x));
        }
        if exists|i: int| 0 <= i < inputs.len() && inputs[i].0 == Some(x) {
            let i = choose|i: int| 0 <= i < inputs.len() && inputs[i].0 == Some(x);
            assert(s[i].0 == x);
            assert(has_name(f, x));
        }
    }
    assert forall|i: int|
        0 <= i < inputs.len() && (forall|j: int| i < j < inputs.len() ==> inputs[j].0 != inputs[i].0)
            implies value_of(f, #[trigger] inputs[i].0->Some_0) == inputs[i].1->Some_0 by {
        assert forall|j: int| i < j < s.len() implies s[j].0 != s[i].0 by {
            assert(inputs[j].0 != inputs[i].0);
        }
        assert(s[i].0 == inputs[i].0->Some_0);
    }
}

/// A page is not laid out as expected: an element or attribute is missing.
#[derive(Debug, Clone, Copy, PartialEq, Eq, Structural)]
pub struct MalformedPage;

/// The target and the fields to replay of a server-rendered form.
#[derive(Debug)]
pub struct FormSnapshot {
    pub target_url: String,
    pub fields: Vec<(String, String)>,
}

impl FormSnapshot {
    /// The target and the fields of the snapshot.
    pub open spec fn view_pair(&self) -> (Seq<char>, FieldsView) {
        (self.target_url@, fields_view(self.fields@))
    }

    /// No two fields share a name.
    pub open spec fn well_formed(&self) -> bool {
        names_unique(fields_view(self.fields@))
    }
}

/// Sets field `k` to `v`, in place where a field of that name exists.
pub fn put_field(fields: &mut Vec<(String, String)>, k: String, v: String)
    requires
        names_unique(fields_view(old(fields)@)),
    ensures
        fields_view(final(fields)@) == put(fields_view(old(fields)@), k@, v@),
        names_unique(fields_view(final(fields)@)),
{
    let ghost m = fields_view(fields@);
    let mut i: usize = 0;
    while i < fields.len()
        invariant
            i <= fields.len(),
            fields_view(fields@) == m,
            m == fields_view(old(fields)@),
            names_unique(m),
            forall|j: int| 0 <= j < i ==> m[j].0 != k@,
        decreases fields.len() - i,
    {
        if fields[i].0 == k {
            assert(m[i as int].0 == fields@[i as int].0@);
            assert(m[i as int].0 == k@);
            assert(has_name(m, k@));
            let ghost c = choose|j: int| 0 <= j < m.len() && m[j].0 == k@;
            assert(c == i);
            fields.set(i, (k, v));
            assert(fields_view(fields@) =~= put(m, k@, v@));
            return;
        }
        i = i + 1;
    }
    assert(!has_name(m, k@));
    fields.push((k, v));
    assert(fields_view(fields@) =~= put(m, k@, v@));
}

/// Sets each complete input of `inputs` in turn, later ones winning; fails
/// when an input lacks a name or a value.
pub fn put_inputs(fields: &mut Vec<(String, String)>, inputs: &Vec<(Option<String>, Option<String>)>) -> (r: Result<(), MalformedPage>)
    requires
        names_unique(fields_view(old(fields)@)),
    ensures
        r is Ok <==> inputs_complete(opt_str_pairs(inputs@)),
        r is Ok ==> fields_view(final(fields)@) == put_all(
            fields_view(old(fields)@),
            input_pairs(opt_str_pairs(inputs@)),
        ),
        names_unique(fields_view(final(fields)@)),
{
    let ghost m0 = fields_view(fields@);
    let ghost ins = opt_str_pairs(inputs@);
    let mut i: usize = 0;
    while i < inputs.len()
        invariant
            i <= inputs.len(),
            ins == opt_str_pairs(inputs@),
            names_unique(fields_view(fields@)),
            inputs_complete(ins.take(i as int)),
            fields_view(fields@) == put_all(m0, input_pairs(ins.take(i as int))),
        decreases inputs.len() - i,
    {
        let (name, value) = match (&inputs[i].0, &inputs[i].1) {
            (Some(n), Some(v)) => (n.clone(), v.clone()),
            _ => {
                assert(!inputs_complete(ins)) by {
                    assert(ins[i as int].0 is None || ins[i as int].1 is None);
                }
                return Err(MalformedPage);
            },
        };
        put_field(fields, name, value);
        assert(input_pairs(ins.take(i + 1)).drop_last() =~= input_pairs(ins.take(i as int)));
        i = i + 1;
    }
    assert(ins.take(i as int) =~= ins);
    Ok(())
}

/// The form that a page expects next, from the action attributes of its
/// forms and the name/value attributes of its hidden and submit inputs.
pub fn form_from_parts(
    actions: &Vec<Option<String>>,
    inputs: &Vec<(Option<String>, Option<String>)>,
) -> (r: Result<FormSnapshot, MalformedPage>)
    ensures
        match r {
            Ok(f) => form_spec(opt_strs(actions@), opt_str_pairs(inputs@)) == Some(f.view_pair())
                && f.well_formed(),
            Err(_) => form_spec(opt_strs(actions@), opt_str_pairs(inputs@)) is None,
        },
{
    let ghost acts = opt_strs(actions@);
    if actions.len() == 0 {
        return Err(MalformedPage);
    }
    let target_url = match &actions[actions.len() - 1] {
        Some(a) => a.clone(),
        None => {
            return Err(MalformedPage);
        },
    };
    let mut fields: Vec<(String, String)> = Vec::new();
    assert(fields_view(fields@) =~= Seq::empty());
    match put_inputs(&mut fields, inputs) {
        Ok(()) => Ok(FormSnapshot { target_url, fields }),
        Err(e) => Err(e),
    }
}

/// The selector of every form of a page.
pub const FORM_SELECTOR: &'static str = "form";

/// The attribute of a form that holds its target.
pub const ACTION_ATTR: &'static str = "action";

/// The selector of the inputs that a form replays.
pub const REPLAYED_INPUTS: &'static str = "input[type='submit'],input[type='hidden']";

/// The attribute of an input that holds its name.
pub const NAME_ATTR: &'static str = "name";

/// The attribute of an input that holds its value.
pub const VALUE_ATTR: &'static str = "value";

/// What the page's forms and inputs give, when both queries succeed.
pub open spec fn page_form(page: Seq<char>) -> Option<(Seq<char>, FieldsView)> {
    match (
        attr_values(page, FORM_SELECTOR@, ACTION_ATTR@),
        attr_pair_values(page, REPLAYED_INPUTS@, NAME_ATTR@, VALUE_ATTR@),
    ) {
        (Some(a), Some(i)) => form_spec(a, i),
        _ => None,
    }
}

/// The form that the page expects to be submitted next: the last form's
/// target, and the hidden and submit inputs found anywhere on the page.
pub fn extract_form(page: &str) -> (r: Result<FormSnapshot, MalformedPage>)
    ensures
        match r {
            Ok(f) => page_form(page@) == Some(f.view_pair()) && f.well_formed(),
            Err(_) => page_form(page@) is None,
        },
{
    let actions = match select_attr(page, FORM_SELECTOR, ACTION_ATTR) {
        Some(a) => a,
        None => {
            return Err(MalformedPage);
        },
    };
    let inputs = match select_attr_pairs(page, REPLAYED_INPUTS, NAME_ATTR, VALUE_ATTR) {
        Some(i) => i,
        None => {
            return Err(MalformedPage);
        },
    };
    form_from_parts(&actions, &inputs)
}

} // verus!
