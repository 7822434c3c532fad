//! The report-selection page: the terms on offer, the field that carries the
//! chosen term, and the form that submits the choice.
use vstd::prelude::*;
use crate::form::{extract_form, fields_view, names_unique, page_form, put, put_field, FieldsView, MalformedPage};
use crate::page::{attr_values, inner_texts_in_first, select_attr, select_inner_texts, strs};

verus! {

/// The selector of the term chooser.
pub const TERM_CHOOSER: &'static str = "select";

/// The selector of the chooser's entries.
pub const TERM_OPTION: &'static str = "option";

/// The attribute of the chooser that names its field.
pub const CHOOSER_NAME_ATTR: &'static str = "name";

/// The report-selection page as the next request needs it.
#[derive(Debug)]
pub struct SessionsPageData {
    /// The term labels, in page order; the first is a placeholder.
    pub sessions: Vec<String>,
    /// The target of the selection form.
    pub form_url: String,
    /// The fields that the selection form replays.
    pub submit_fields: Vec<(String, String)>,
    /// The field that carries the chosen term.
    pub session_field_name: String,
}

/// The decimal text of `n`, with a leading `-` when negative.
pub open spec fn decimal(n: int) -> Seq<char>
    decreases (if n < 0 { -n + 1 } else { n }),
{
    if n < 0 {
        seq!['-'] + decimal(-n)
    } else if n < 10 {
        seq![digit_char(n)]
    } else {
        decimal(n / 10).push(digit_char(n % 10))
    }
}

/// The character of a decimal digit.
pub open spec fn digit_char(d: int) -> char {
    if d == 0 { '0' }
    else if d == 1 { '1' }
    else if d == 2 { '2' }
    else if d == 3 { '3' }
    else if d == 4 { '4' }
    else if d == 5 { '5' }
    else if d == 6 { '6' }
    else if d == 7 { '7' }
    else if d == 8 { '8' }
    else { '9' }
}

/// Relies on `i32`'s `to_string` (its `Display`): the decimal text.
#[verifier::external_body]
fn decimal_text(n: i32) -> (r: String)
    ensures
        r@ == decimal(n as int),
{
    n.to_string()
}

impl SessionsPageData {
    /// The field names of the selection form are unique.
    pub open spec fn well_formed(&self) -> bool {
        names_unique(fields_view(self.submit_fields@))
    }

    /// Sets the term field to the decimal text of `term_id`, the index of
    /// the chosen term among those after the placeholder.
    pub fn select_term(&mut self, term_id: i32)
        requires
            old(self).well_formed(),
        ensures
            final(self).well_formed(),
            fields_view(final(self).submit_fields@) == put(
                fields_view(old(self).submit_fields@),
                old(self).session_field_name@,
                decimal(term_id as int),
            ),
            final(self).sessions == old(self).sessions,
            final(self).form_url == old(self).form_url,
            final(self).session_field_name == old(self).session_field_name,
    {
        let name = self.session_field_name.clone();
        let value = decimal_text(term_id);
        put_field(&mut self.submit_fields, name, value);
    }
}

/// The report-selection page: the term labels below the first chooser, the
/// chooser's field name, and the page's form. `None` when the page has no
/// chooser, the first chooser has no name, or the form is malformed.
pub open spec fn sessions_spec(page: Seq<char>) -> Option<
    (Seq<Seq<char>>, Seq<char>, FieldsView, Seq<char>),
> {
    match (
        attr_values(page, TERM_CHOOSER@, CHOOSER_NAME_ATTR@),
        inner_texts_in_first(page, TERM_CHOOSER@, TERM_OPTION@),
        page_form(page),
    ) {
        (Some(names), Some(options), Some(form)) => if names.len() > 0 && names[0] is Some {
            Some((options, form.0, form.1, names[0]->Some_0))
        } else {
            None
        },
        _ => None,
    }
}

impl SessionsPageData {
    /// The sessions data as seen in specifications.
    pub open spec fn view_tuple(&self) -> (Seq<Seq<char>>, Seq<char>, FieldsView, Seq<char>) {
        (
            strs(self.sessions@),
            self.form_url@,
            fields_view(self.submit_fields@),
            self.session_field_name@,
        )
    }
}

/// Reads the report-selection page: the terms of the first chooser, its
/// field name, and the form that submits the choice.
pub fn list_sessions(page: &str) -> (r: Result<SessionsPageData, MalformedPage>)
    ensures
        match r {
            Ok(d) => sessions_spec(page@) == Some(d.view_tuple()) && d.well_formed(),
            Err(_) => sessions_spec(page@) is None,
        },
{
    let names = match select_attr(page, TERM_CHOOSER, CHOOSER_NAME_ATTR) {
        Some(n) => n,
        None => {
            return Err(MalformedPage);
        },
    };
    let options = match select_inner_texts(page, TERM_CHOOSER, TERM_OPTION) {
        Some(o) => o,
        None => {
            return Err(MalformedPage);
        },
    };
    let form = match extract_form(page) {
        Ok(f) => f,
        Err(e) => {
            return Err(e);
        },
    };
    if names.len() == 0 {
        return Err(MalformedPage);
    }
    let session_field_name = match &names[0] {
        Some(n) => n.clone(),
        None => {
            return Err(MalformedPage);
        },
    };
    Ok(SessionsPageData {
        sessions: options,
        form_url: form.target_url,
        submit_fields: form.fields,
        session_field_name,
    })
}

} // verus!
