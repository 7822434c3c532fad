//! The decisions of a run against the portal, as a state machine: each
//! fetched page moves the flow to its next stage and names the request to
//! send next, a term to ask for, the finished report, or a stop. The caller
//! sends the requests and hands back what came back.
use vstd::prelude::*;
use crate::form::{extract_form, fields_view, page_form, FieldsView, MalformedPage};
use crate::login::{login_fields, login_succeeded, page_login_fields, AUTHENTICATED_MARKER};
use crate::page::cell_texts_in_first;
use crate::sessions::{decimal, list_sessions, sessions_spec, SessionsPageData};
use crate::text::has_infix;
use crate::timetable::{
    courses_of_table, parse_timetable, CourseData, CELL_SELECTOR, REPORT_TABLE, ROW_SELECTOR,
};

verus! {

/// The landing action: the login page before authentication, the
/// report-selection page after it.
pub const LANDING_URL: &'static str = "https://wrem.sis.yorku.ca/Apps/WebObjects/REM.woa/wa/DirectAction/rem";

/// The login endpoint.
pub const LOGIN_URL: &'static str = "https://passportyork.yorku.ca/ppylogin/ppylogin";

/// The logout endpoint.
pub const LOGOUT_URL: &'static str = "https://passportyork.yorku.ca/ppylogin/ppylogout";

/// Why a run stopped before producing a report.
#[derive(Debug, Clone, Copy, PartialEq, Eq, Structural)]
pub enum FlowError {
    /// A page lacked an expected element or attribute.
    MalformedPage,
    /// The credentials did not produce the success marker.
    AuthenticationRejected,
}

/// A request to send, carrying the session's cookies.
#[derive(Debug)]
pub enum Request {
    Get { url: String },
    Post { url: String, fields: Vec<(String, String)> },
}

/// What the caller does next.
#[derive(Debug)]
pub enum Action {
    /// Send the request and hand the response body to `on_page`.
    Send(Request),
    /// Ask for a term among these labels (the first is a placeholder and is
    /// not offered) and hand its index to `on_term`.
    ChooseTerm(Vec<String>),
    /// The report's courses.
    Report(CourseData),
    /// Stop: the run failed.
    Stop(FlowError),
}

/// Where a run stands.
#[derive(Debug)]
pub enum Stage {
    /// Waiting for the login page.
    LoginPage,
    /// Waiting for the login response.
    LoginResponse,
    /// Waiting for the report-selection page.
    SessionsPage,
    /// Waiting for the term choice.
    TermChoice(SessionsPageData),
    /// Waiting for the course-summary page.
    SummaryPage,
    /// Waiting for the report page.
    ReportPage,
    /// Nothing is awaited: the run is over.
    Finished,
}

/// A run against the portal for one user.
#[derive(Debug)]
pub struct Flow {
    pub username: String,
    pub password: String,
    pub stage: Stage,
}

/// The action is a GET of `url`.
pub open spec fn is_get(a: &Action, url: Seq<char>) -> bool {
    match a {
        Action::Send(Request::Get { url: u }) => u@ == url,
        _ => false,
    }
}

/// The action is a POST of `fields` to `url`.
pub open spec fn is_post(a: &Action, url: Seq<char>, fields: FieldsView) -> bool {
    match a {
        Action::Send(Request::Post { url: u, fields: f }) => u@ == url && fields_view(f@) == fields,
        _ => false,
    }
}

/// The action stops the run with error `e`.
pub open spec fn is_stop(a: &Action, e: FlowError) -> bool {
    match a {
        Action::Stop(x) => x == e,
        _ => false,
    }
}

/// The action sends a request.
pub open spec fn sends(a: &Action) -> bool {
    a is Send
}

impl Flow {
    /// The held term data is well formed.
    pub open spec fn well_formed(&self) -> bool {
        match &self.stage {
            Stage::TermChoice(d) => d.well_formed(),
            _ => true,
        }
    }

    /// A run for these credentials, and its first request: a GET of the
    /// landing action, which yields the login page.
    pub fn start(username: String, password: String) -> (r: (Flow, Action))
        ensures
            r.0.username == username,
            r.0.password == password,
            r.0.stage is LoginPage,
            is_get(&r.1, LANDING_URL@),
    {
        let flow = Flow { username, password, stage: Stage::LoginPage };
        (flow, Action::Send(Request::Get { url: LANDING_URL.to_owned() }))
    }

    /// Moves on with the body of the page that the last request fetched.
    pub fn on_page(&mut self, body: &str) -> (r: Action)
        requires
            old(self).well_formed(),
        ensures
            final(self).well_formed(),
            final(self).username == old(self).username,
            final(self).password == old(self).password,
            old(self).stage is LoginResponse && !has_infix(body@, AUTHENTICATED_MARKER@) ==> !sends(&r)
                && final(self).stage is Finished,
            old(self).stage is Finished ==> !sends(&r) && final(self).stage is Finished,
            match old(self).stage {
                Stage::LoginPage => match page_login_fields(body@, old(self).username@, old(self).password@) {
                    Some(f) => is_post(&r, LOGIN_URL@, f) && final(self).stage is LoginResponse,
                    None => is_stop(&r, FlowError::MalformedPage) && final(self).stage is Finished,
                },
                Stage::LoginResponse => if has_infix(body@, AUTHENTICATED_MARKER@) {
                    is_get(&r, LANDING_URL@) && final(self).stage is SessionsPage
                } else {
                    is_stop(&r, FlowError::AuthenticationRejected) && final(self).stage is Finished
                },
                Stage::SessionsPage => match sessions_spec(body@) {
                    Some(s) => (r matches Action::ChooseTerm(labels) && labels@.map_values(
                        |l: String| l@,
                    ) == s.0) && (final(self).stage matches Stage::TermChoice(d) && d.view_tuple()
                        == s),
                    None => is_stop(&r, FlowError::MalformedPage) && final(self).stage is Finished,
                },
                Stage::SummaryPage => match page_form(body@) {
                    Some(f) => is_post(&r, f.0, f.1) && final(self).stage is ReportPage,
                    None => is_stop(&r, FlowError::MalformedPage) && final(self).stage is Finished,
                },
                Stage::ReportPage => match cell_texts_in_first(
                    body@,
                    REPORT_TABLE@,
                    ROW_SELECTOR@,
                    CELL_SELECTOR@,
                ) {
                    Some(rows) => (r matches Action::Report(d) && d@ == courses_of_table(rows)
                        && d.well_formed()) && final(self).stage is Finished,
                    None => is_stop(&r, FlowError::MalformedPage) && final(self).stage is Finished,
                },
                _ => is_stop(&r, FlowError::MalformedPage) && final(self).stage is Finished,
            },
    {
        let mut stage = Stage::Finished;
        core::mem::swap(&mut self.stage, &mut stage);
        match stage {
            Stage::LoginPage => match login_fields(body, self.username.as_str(), self.password.as_str()) {
                Ok(fields) => {
                    self.stage = Stage::LoginResponse;
                    Action::Send(Request::Post { url: LOGIN_URL.to_owned(), fields })
                },
                Err(MalformedPage) => Action::Stop(FlowError::MalformedPage),
            },
            Stage::LoginResponse => if login_succeeded(body) {
                self.stage = Stage::SessionsPage;
                Action::Send(Request::Get { url: LANDING_URL.to_owned() })
            } else {
                Action::Stop(FlowError::AuthenticationRejected)
            },
            Stage::SessionsPage => match list_sessions(body) {
                Ok(data) => {
                    let labels = data.sessions.clone();
                    assert(labels@ == data.sessions@);
                    self.stage = Stage::TermChoice(data);
                    Action::ChooseTerm(labels)
                },
                Err(MalformedPage) => Action::Stop(FlowError::MalformedPage),
            },
            Stage::SummaryPage => match extract_form(body) {
                Ok(form) => {
                    self.stage = Stage::ReportPage;
                    Action::Send(Request::Post { url: form.target_url, fields: form.fields })
                },
                Err(MalformedPage) => Action::Stop(FlowError::MalformedPage),
            },
            Stage::ReportPage => match parse_timetable(body) {
                Ok(data) => Action::Report(data),
                Err(MalformedPage) => Action::Stop(FlowError::MalformedPage),
            },
            _ => Action::Stop(FlowError::MalformedPage),
        }
    }

    /// Moves on with the chosen term: its index among the terms after the
    /// placeholder goes into the term field, and the selection form is posted.
    pub fn on_term(&mut self, term_id: i32) -> (r: Action)
        requires
            old(self).well_formed(),
        ensures
            final(self).well_formed(),
            final(self).username == old(self).username,
            final(self).password == old(self).password,
            old(self).stage is Finished ==> !sends(&r) && final(self).stage is Finished,
            match old(self).stage {
                Stage::TermChoice(d) => is_post(
                    &r,
                    d.form_url@,
                    crate::form::put(fields_view(d.submit_fields@), d.session_field_name@, decimal(term_id as int)),
                ) && final(self).stage is SummaryPage,
                _ => is_stop(&r, FlowError::MalformedPage) && final(self).stage is Finished,
            },
    {
        let mut stage = Stage::Finished;
        core::mem::swap(&mut self.stage, &mut stage);
        match stage {
            Stage::TermChoice(mut data) => {
                data.select_term(term_id);
                self.stage = Stage::SummaryPage;
                Action::Send(Request::Post { url: data.form_url, fields: data.submit_fields })
            },
            _ => Action::Stop(FlowError::MalformedPage),
        }
    }
}

/// The request that ends the authenticated session.
pub fn logout_request() -> (r: Request)
    ensures
        r matches Request::Get { url } && url@ == LOGOUT_URL@,
{
    Request::Get { url: LOGOUT_URL.to_owned() }
}

} // verus!
