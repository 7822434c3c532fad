//! Scraping of a university portal's timetable report.
//!
//! - `form`: the form that a page expects next, replayed field for field.
//! - `login`: the fields posted with the credentials, and the success test.
//! - `sessions`: the report-selection page and the chosen term.
//! - `timetable`: the schedule table folded into courses, formats and times.
//! - `season`: the courses of one season, and the seasons to choose from.
//! - `flow`: the run as a state machine from fetched page to next request.
//! - `page`: queries on HTML pages, answered by `scraper`.
//! - `text`: character-level string helpers.
pub mod flow;
pub mod form;
pub mod login;
pub mod page;
pub mod season;
pub mod sessions;
pub mod text;
pub mod timetable;
