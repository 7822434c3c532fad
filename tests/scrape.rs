use timetable::form::{extract_form, form_from_parts, put_field, MalformedPage};
use timetable::login::{login_fields, login_fields_from_inputs, login_succeeded};
use timetable::season::filter_season;
use timetable::sessions::list_sessions;
use timetable::text::{text_contains, text_equals, text_starts_with};
use timetable::timetable::{courses_from_rows, parse_timetable, CourseData, CourseTime};

fn row(cells: &[&str]) -> Vec<String> {
    cells.iter().map(|c| c.to_string()).collect()
}

fn header() -> Vec<String> {
    row(&["Course", "Type", "Day/Time", "Duration"])
}

fn times_of(data: &CourseData, course: &str, format: &str) -> Vec<(String, String)> {
    let entry = data.courses.iter().find(|c| c.course == course).expect("course");
    let f = entry.formats.iter().find(|f| f.format == format).expect("format");
    f.times.iter().map(|t| (t.day_time.clone(), t.duration.clone())).collect()
}

fn pairs(v: &[(&str, &str)]) -> Vec<(String, String)> {
    v.iter().map(|(a, b)| (a.to_string(), b.to_string())).collect()
}

#[test]
fn carry_forward_round_trip() {
    let rows = vec![
        header(),
        row(&["CS101", "Lecture", "Mon 10:00", "50min"]),
        row(&["", "Lab", "Tue 14:00", "80min"]),
        row(&["CS102", "", "Wed 9:00", "50min"]),
    ];
    let data = courses_from_rows(&rows);
    assert_eq!(data.courses.len(), 2);
    assert_eq!(data.courses[0].course, "CS101");
    assert_eq!(data.courses[0].formats.len(), 2);
    assert_eq!(times_of(&data, "CS101", "Lecture"), pairs(&[("Mon 10:00", "50min")]));
    assert_eq!(times_of(&data, "CS101", "Lab"), pairs(&[("Tue 14:00", "80min")]));
    assert_eq!(data.courses[1].course, "CS102");
    assert_eq!(data.courses[1].formats.len(), 1);
    assert_eq!(times_of(&data, "CS102", "Lab"), pairs(&[("Wed 9:00", "50min")]));
}

#[test]
fn blank_rows_are_dropped() {
    let rows = vec![
        header(),
        row(&["CS101", "Lecture", "Mon 10:00", "50min"]),
        row(&["CS999", "Seminar", "", "50min"]),
        row(&["CS998", "Tutorial", "Fri 8:00", ""]),
        row(&["CS997", "Studio"]),
        row(&["", "", "Thu 10:00", "50min"]),
    ];
    let data = courses_from_rows(&rows);
    assert_eq!(data.courses.len(), 1);
    assert_eq!(
        times_of(&data, "CS101", "Lecture"),
        pairs(&[("Mon 10:00", "50min"), ("Thu 10:00", "50min")])
    );
}

#[test]
fn header_row_is_skipped() {
    let rows = vec![row(&["CS500", "Lecture", "Mon 10:00", "50min"])];
    assert!(courses_from_rows(&rows).courses.is_empty());
    assert!(courses_from_rows(&Vec::new()).courses.is_empty());
}

#[test]
fn unlabelled_row_uses_empty_keys() {
    let rows = vec![header(), row(&["", "", "Mon 10:00", "50min"])];
    let data = courses_from_rows(&rows);
    assert_eq!(times_of(&data, "", ""), pairs(&[("Mon 10:00", "50min")]));
}

#[test]
fn repeated_labels_append_in_order() {
    let rows = vec![
        header(),
        row(&["CS101", "Lecture", "Mon 10:00", "50min"]),
        row(&["CS102", "Lecture", "Tue 10:00", "50min"]),
        row(&["CS101", "Lecture", "Wed 10:00", "80min"]),
    ];
    let data = courses_from_rows(&rows);
    assert_eq!(data.courses.len(), 2);
    assert_eq!(
        times_of(&data, "CS101", "Lecture"),
        pairs(&[("Mon 10:00", "50min"), ("Wed 10:00", "80min")])
    );
}

fn seasonal() -> CourseData {
    let mut data = CourseData::new();
    let t = |d: &str| CourseTime { day_time: d.to_string(), duration: "50min".to_string() };
    data.add_meeting(&"Fall A".to_string(), &"Lecture".to_string(), t("Mon"));
    data.add_meeting(&"Winter B".to_string(), &"Lecture".to_string(), t("Tue"));
    data.add_meeting(&"Fall C".to_string(), &"Lab".to_string(), t("Wed"));
    data
}

#[test]
fn season_filter_keeps_prefix() {
    let kept = filter_season(seasonal(), "Fall");
    let names: Vec<&str> = kept.courses.iter().map(|c| c.course.as_str()).collect();
    assert_eq!(names, vec!["Fall A", "Fall C"]);
}

#[test]
fn season_filter_all_keeps_everything() {
    let kept = filter_season(seasonal(), "All");
    let names: Vec<&str> = kept.courses.iter().map(|c| c.course.as_str()).collect();
    assert_eq!(names, vec!["Fall A", "Winter B", "Fall C"]);
    assert!(filter_season(seasonal(), "Summer").courses.is_empty());
}

const DECOY_PAGE: &str = r#"<html><body>
<form action="/decoy"><input type="text" name="q" value="x"><input type="checkbox" name="c" value="y"></form>
<form action="/other"><input type="hidden" name="a" value="0"></form>
<form action="/target"><input type="hidden" name="a" value="1"><input type="submit" name="b" value="2"></form>
</body></html>"#;

#[test]
fn extract_form_uses_last_form() {
    let form = extract_form(DECOY_PAGE).expect("form");
    assert_eq!(form.target_url, "/target");
    assert_eq!(form.fields, pairs(&[("a", "1"), ("b", "2")]));
}

#[test]
fn extract_form_without_form_fails() {
    let page = r#"<html><body><input type="hidden" name="a" value="1"></body></html>"#;
    assert_eq!(extract_form(page).err(), Some(MalformedPage));
    let no_action = r#"<html><body><form><input type="hidden" name="a" value="1"></form></body></html>"#;
    assert_eq!(extract_form(no_action).err(), Some(MalformedPage));
    let no_value = r#"<html><body><form action="/t"><input type="hidden" name="a"></form></body></html>"#;
    assert_eq!(extract_form(no_value).err(), Some(MalformedPage));
}

#[test]
fn form_parts_last_wins() {
    let actions = vec![Some("/first".to_string()), Some("/last".to_string())];
    let inputs = vec![
        (Some("k".to_string()), Some("1".to_string())),
        (Some("j".to_string()), Some("2".to_string())),
        (Some("k".to_string()), Some("3".to_string())),
    ];
    let form = form_from_parts(&actions, &inputs).expect("form");
    assert_eq!(form.target_url, "/last");
    assert_eq!(form.fields, pairs(&[("k", "3"), ("j", "2")]));
    let missing = vec![Some("/a".to_string()), None];
    assert_eq!(form_from_parts(&missing, &inputs).err(), Some(MalformedPage));
    assert_eq!(form_from_parts(&Vec::new(), &inputs).err(), Some(MalformedPage));
    let unnamed = vec![(None, Some("1".to_string()))];
    assert_eq!(form_from_parts(&actions, &unnamed).err(), Some(MalformedPage));
}

#[test]
fn put_field_overwrites_or_appends() {
    let mut fields = pairs(&[("a", "1")]);
    put_field(&mut fields, "a".to_string(), "9".to_string());
    put_field(&mut fields, "b".to_string(), "2".to_string());
    assert_eq!(fields, pairs(&[("a", "9"), ("b", "2")]));
}

#[test]
fn login_fields_overlay_hidden() {
    let page = r#"<html><body><form action="/login">
<input type="hidden" name="token" value="abc"><input type="hidden" name="dologin" value="Go">
<input type="text" name="mli" value=""></form></body></html>"#;
    let fields = login_fields(page, "user", "SECRET-REDACTED").expect("fields");
    assert_eq!(
        fields,
        pairs(&[("mli", "user"), ("password", "SECRET-REDACTED"), ("dologin", "Go"), ("token", "abc")])
    );
    let bad = vec![(Some("token".to_string()), None)];
    assert_eq!(login_fields_from_inputs("u", "p", &bad).err(), Some(MalformedPage));
    let none = login_fields_from_inputs("u", "p", &Vec::new()).expect("fields");
    assert_eq!(none, pairs(&[("mli", "u"), ("password", "p"), ("dologin", "Login")]));
}

#[test]
fn login_success_marker() {
    assert!(login_succeeded("<p>You have successfully authenticated.</p>"));
    assert!(!login_succeeded("<p>Invalid credentials</p>"));
    assert!(!login_succeeded(""));
}

const SESSIONS_PAGE: &str = r#"<html><body><form action="/report">
<select name="sessionSelect"><option>Choose a term</option><option>FALL/WINTER 2023-2024</option><option>SUMMER 2024</option></select>
<select name="other"><option>X</option></select>
<input type="hidden" name="wosid" value="s1"><input type="submit" name="go" value="Continue">
</form></body></html>"#;

#[test]
fn sessions_page_lists_terms() {
    let mut data = list_sessions(SESSIONS_PAGE).expect("sessions");
    assert_eq!(data.sessions, vec!["Choose a term", "FALL/WINTER 2023-2024", "SUMMER 2024"]);
    assert_eq!(data.session_field_name, "sessionSelect");
    assert_eq!(data.form_url, "/report");
    assert_eq!(data.submit_fields, pairs(&[("wosid", "s1"), ("go", "Continue")]));
    data.select_term(12);
    assert_eq!(
        data.submit_fields,
        pairs(&[("wosid", "s1"), ("go", "Continue"), ("sessionSelect", "12")])
    );
    data.select_term(-3);
    assert_eq!(data.submit_fields[2], ("sessionSelect".to_string(), "-3".to_string()));
}

#[test]
fn sessions_page_without_chooser_fails() {
    assert_eq!(list_sessions(DECOY_PAGE).err(), Some(MalformedPage));
    let unnamed = r#"<html><body><form action="/r"><select><option>A</option></select></form></body></html>"#;
    assert_eq!(list_sessions(unnamed).err(), Some(MalformedPage));
}

fn report_page(table: &str) -> String {
    let spacer = "<span></span>".repeat(7);
    format!(
        "<html><body><form><div><table><tr><td></td></tr><tr><td></td></tr><tr><td></td></tr>\
<tr><td></td><td><table><tr><td>{spacer}<table>{table}</table></td></tr></table></td></tr>\
</table></div></form></body></html>"
    )
}

#[test]
fn report_table_is_parsed() {
    let table = "<tr><td>Course</td><td>Type</td><td>Day/Time</td><td>Duration</td></tr>\
<tr><td> CS101 <b>A</b></td><td>Lecture</td><td> Mon 10:00 </td><td>50min</td></tr>\
<tr><td></td><td>Lab</td><td>Tue 14:00</td><td>80min</td></tr>";
    let data = parse_timetable(&report_page(table)).expect("table");
    assert_eq!(data.courses.len(), 1);
    assert_eq!(times_of(&data, "CS101A", "Lecture"), pairs(&[("Mon 10:00", "50min")]));
    assert_eq!(times_of(&data, "CS101A", "Lab"), pairs(&[("Tue 14:00", "80min")]));
}

#[test]
fn report_without_table_fails() {
    assert_eq!(parse_timetable(DECOY_PAGE).err(), Some(MalformedPage));
}

#[test]
fn text_helpers() {
    assert!(text_contains("abcabd", "abd"));
    assert!(!text_contains("abcab", "abd"));
    assert!(text_contains("abc", ""));
    assert!(!text_contains("ab", "abc"));
    assert!(text_starts_with("Fall A", "Fall"));
    assert!(!text_starts_with("Fal", "Fall"));
    assert!(text_equals("All", "All"));
    assert!(!text_equals("All", "Al"));
    assert!(!text_equals("All", "all"));
}

use timetable::flow::{logout_request, Action, Flow, FlowError, Request};
use timetable::season::{first_word_of, season_choices};

const LOGIN_PAGE: &str = r#"<html><body><form action="/login"><input type="hidden" name="token" value="t1"></form></body></html>"#;

fn post_of(action: Action) -> (String, Vec<(String, String)>) {
    match action {
        Action::Send(Request::Post { url, fields }) => (url, fields),
        other => panic!("expected a post, got {:?}", other),
    }
}

#[test]
fn rejected_login_stops_without_requests() {
    let (mut flow, first) = Flow::start("user".to_string(), "pw".to_string());
    assert!(matches!(first, Action::Send(Request::Get { .. })));
    let (url, fields) = post_of(flow.on_page(LOGIN_PAGE));
    assert_eq!(url, "https://passportyork.yorku.ca/ppylogin/ppylogin");
    assert_eq!(fields.len(), 4);
    let after = flow.on_page("<p>Authentication failed</p>");
    assert!(matches!(after, Action::Stop(FlowError::AuthenticationRejected)));
    assert!(matches!(flow.on_page(SESSIONS_PAGE), Action::Stop(_)));
    assert!(matches!(flow.on_term(0), Action::Stop(_)));
}

#[test]
fn accepted_login_walks_to_the_report() {
    let (mut flow, _) = Flow::start("user".to_string(), "pw".to_string());
    post_of(flow.on_page(LOGIN_PAGE));
    let next = flow.on_page("<p>You have successfully authenticated</p>");
    match next {
        Action::Send(Request::Get { url }) => assert!(url.ends_with("DirectAction/rem")),
        other => panic!("expected a get, got {:?}", other),
    }
    match flow.on_page(SESSIONS_PAGE) {
        Action::ChooseTerm(labels) => assert_eq!(labels.len(), 3),
        other => panic!("expected a term choice, got {:?}", other),
    }
    let (url, fields) = post_of(flow.on_term(1));
    assert_eq!(url, "/report");
    assert_eq!(fields[2], ("sessionSelect".to_string(), "1".to_string()));
    let (url, fields) = post_of(flow.on_page(DECOY_PAGE));
    assert_eq!(url, "/target");
    assert_eq!(fields, pairs(&[("a", "1"), ("b", "2")]));
    let table = "<tr><td>h</td></tr><tr><td>CS1</td><td>Lab</td><td>Mon</td><td>1h</td></tr>";
    match flow.on_page(&report_page(table)) {
        Action::Report(data) => assert_eq!(times_of(&data, "CS1", "Lab"), pairs(&[("Mon", "1h")])),
        other => panic!("expected a report, got {:?}", other),
    }
    assert!(matches!(flow.on_page(""), Action::Stop(FlowError::MalformedPage)));
}

#[test]
fn malformed_login_page_stops() {
    let (mut flow, _) = Flow::start("u".to_string(), "p".to_string());
    let page = r#"<html><body><input type="hidden" name="token"></body></html>"#;
    assert!(matches!(flow.on_page(page), Action::Stop(FlowError::MalformedPage)));
}

#[test]
fn logout_targets_logout_endpoint() {
    match logout_request() {
        Request::Get { url } => assert_eq!(url, "https://passportyork.yorku.ca/ppylogin/ppylogout"),
        other => panic!("expected a get, got {:?}", other),
    }
}

#[test]
fn first_words() {
    assert_eq!(first_word_of("  Fall\tA"), "Fall");
    assert_eq!(first_word_of("Winter"), "Winter");
    assert_eq!(first_word_of("   "), "");
    assert_eq!(first_word_of(""), "");
}

#[test]
fn season_choices_are_distinct() {
    let mut data = seasonal();
    let t = CourseTime { day_time: "Thu".to_string(), duration: "1h".to_string() };
    data.add_meeting(&"".to_string(), &"Lab".to_string(), t);
    assert_eq!(season_choices(&data), vec!["All", "Fall", "Winter"]);
}


fn to_json(data: &CourseData) -> serde_json::Value {
    let mut courses = serde_json::Map::new();
    for c in &data.courses {
        let mut formats = serde_json::Map::new();
        for f in &c.formats {
            let times = f
                .times
                .iter()
                .map(|t| {
                    let mut m = serde_json::Map::new();
                    m.insert("day_time".to_string(), serde_json::Value::String(t.day_time.clone()));
                    m.insert("duration".to_string(), serde_json::Value::String(t.duration.clone()));
                    serde_json::Value::Object(m)
                })
                .collect();
            formats.insert(f.format.clone(), serde_json::Value::Array(times));
        }
        courses.insert(c.course.clone(), serde_json::Value::Object(formats));
    }
    serde_json::Value::Object(courses)
}

fn from_json(v: &serde_json::Value) -> CourseData {
    let mut data = CourseData::new();
    for (course, formats) in v.as_object().expect("object") {
        for (format, times) in formats.as_object().expect("object") {
            for t in times.as_array().expect("array") {
                let field = |k: &str| t[k].as_str().expect("string").to_string();
                let time = CourseTime { day_time: field("day_time"), duration: field("duration") };
                data.add_meeting(course, format, time);
            }
        }
    }
    data
}

#[test]
fn json_round_trip_keeps_courses() {
    let rows = vec![
        header(),
        row(&["CS101", "Lecture", "Mon 10:00", "50min"]),
        row(&["", "Lab", "Tue 14:00", "80min"]),
        row(&["", "", "Thu 14:00", "80min"]),
        row(&["CS102", "", "Wed 9:00", "50min"]),
    ];
    let data = courses_from_rows(&rows);
    let text = serde_json::to_string(&to_json(&data)).expect("json");
    let back = from_json(&serde_json::from_str(&text).expect("parse"));
    assert_eq!(back.courses.len(), data.courses.len());
    for c in &data.courses {
        for f in &c.formats {
            assert_eq!(times_of(&back, &c.course, &f.format), times_of(&data, &c.course, &f.format));
        }
    }
    assert_eq!(
        times_of(&back, "CS101", "Lab"),
        pairs(&[("Tue 14:00", "80min"), ("Thu 14:00", "80min")])
    );
}

#[test]
fn term_labels_are_option_text() {
    let page = r#"<html><body><form action="/r"><select name="s"><option>Fall &amp; Winter <b>2024</b></option></select></form></body></html>"#;
    let data = list_sessions(page).expect("sessions");
    assert_eq!(data.sessions, vec!["Fall & Winter 2024"]);
}
