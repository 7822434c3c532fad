//! The schedule table of the report page, folded into courses, delivery
//! formats and meeting times.
use vstd::prelude::*;
use crate::form::MalformedPage;
use crate::page::{cell_texts_in_first, select_cell_texts, str_rows, strs};

verus! {

/// One meeting as seen in specifications: day/time and duration.
pub type TimeView = (Seq<char>, Seq<char>);

/// The formats of one course, each with its meetings in report order.
pub type FormatsView = Seq<(Seq<char>, Seq<TimeView>)>;

/// The courses, each with its formats, in order of first appearance.
pub type CoursesView = Seq<(Seq<char>, FormatsView)>;

/// One scheduled meeting.
#[derive(Debug)]
pub struct CourseTime {
    pub day_time: String,
    pub duration: String,
}

/// The meetings of one course in one delivery format.
#[derive(Debug)]
pub struct FormatTimes {
    pub format: String,
    pub times: Vec<CourseTime>,
}

/// The formats of one course.
#[derive(Debug)]
pub struct CourseEntry {
    pub course: String,
    pub formats: Vec<FormatTimes>,
}

/// Courses by label, then formats by label, then meetings in report order.
/// Labels are unique at each level.
#[derive(Debug)]
pub struct CourseData {
    pub courses: Vec<CourseEntry>,
}

impl View for CourseTime {
    type V = TimeView;

    open spec fn view(&self) -> TimeView {
        (self.day_time@, self.duration@)
    }
}

impl View for FormatTimes {
    type V = (Seq<char>, Seq<TimeView>);

    open spec fn view(&self) -> (Seq<char>, Seq<TimeView>) {
        (self.format@, self.times@.map_values(|t: CourseTime| t@))
    }
}

impl View for CourseEntry {
    type V = (Seq<char>, FormatsView);

    open spec fn view(&self) -> (Seq<char>, FormatsView) {
        (self.course@, self.formats@.map_values(|f: FormatTimes| f@))
    }
}

impl View for CourseData {
    type V = CoursesView;

    open spec fn view(&self) -> CoursesView {
        self.courses@.map_values(|c: CourseEntry| c@)
    }
}

/// No two entries of `s` share a label.
pub open spec fn labels_unique<T>(s: Seq<(Seq<char>, T)>) -> bool {
    forall|i: int, j: int| 0 <= i < s.len() && 0 <= j < s.len() && i != j ==> s[i].0 != s[j].0
}

/// Some entry of `s` has label `k`.
pub open spec fn has_label<T>(s: Seq<(Seq<char>, T)>, k: Seq<char>) -> bool {
    exists|i: int| 0 <= i < s.len() && s[i].0 == k
}

/// The index of the entry labelled `k`, where there is one.
pub open spec fn label_index<T>(s: Seq<(Seq<char>, T)>, k: Seq<char>) -> int {
    choose|i: int| 0 <= i < s.len() && s[i].0 == k
}

/// The formats `fs` with meeting `t` appended under format `f`.
pub open spec fn add_to_format(fs: FormatsView, f: Seq<char>, t: TimeView) -> FormatsView {
    if has_label(fs, f) {
        let i = label_index(fs, f);
        fs.update(i, (f, fs[i].1.push(t)))
    } else {
        fs.push((f, seq![t]))
    }
}

/// The courses `cs` with meeting `t` appended under course `c`, format `f`.
pub open spec fn add_meeting(cs: CoursesView, c: Seq<char>, f: Seq<char>, t: TimeView) -> CoursesView {
    if has_label(cs, c) {
        let i = label_index(cs, c);
        cs.update(i, (c, add_to_format(cs[i].1, f, t)))
    } else {
        cs.push((c, seq![(f, seq![t])]))
    }
}

/// A row that carries a meeting: four cells or more, with day/time and
/// duration both non-empty.
pub open spec fn is_meeting_row(r: Seq<Seq<char>>) -> bool {
    r.len() >= 4 && r[2].len() > 0 && r[3].len() > 0
}

/// The course and format labels in force after the data rows `rows`: a
/// meeting row's non-empty label replaces the one carried so far; other
/// rows change nothing.
pub open spec fn carried_labels(rows: Seq<Seq<Seq<char>>>) -> (Seq<char>, Seq<char>)
    decreases rows.len(),
{
    if rows.len() == 0 {
        (Seq::empty(), Seq::empty())
    } else {
        let (c, f) = carried_labels(rows.drop_last());
        let r = rows.last();
        if is_meeting_row(r) {
            (if r[0].len() > 0 { r[0] } else { c }, if r[1].len() > 0 { r[1] } else { f })
        } else {
            (c, f)
        }
    }
}

/// The courses that the data rows `rows` describe: each meeting row adds
/// its meeting under the labels in force after it.
pub open spec fn courses_of_rows(rows: Seq<Seq<Seq<char>>>) -> CoursesView
    decreases rows.len(),
{
    if rows.len() == 0 {
        Seq::empty()
    } else {
        let before = courses_of_rows(rows.drop_last());
        let r = rows.last();
        if is_meeting_row(r) {
            let (c, f) = carried_labels(rows);
            add_meeting(before, c, f, (r[2], r[3]))
        } else {
            before
        }
    }
}

/// The courses of a whole table: its first row is a header.
pub open spec fn courses_of_table(rows: Seq<Seq<Seq<char>>>) -> CoursesView {
    if rows.len() == 0 {
        Seq::empty()
    } else {
        courses_of_rows(rows.drop_first())
    }
}

/// A row that carries no meeting (fewer than four cells, or a blank
/// day/time or duration) is dropped: removing it from anywhere in the data
/// rows changes neither the courses nor the labels carried to later rows.
pub proof fn lemma_non_meeting_row_is_inert(
    above: Seq<Seq<Seq<char>>>,
    row: Seq<Seq<char>>,
    below: Seq<Seq<Seq<char>>>,
)
    requires
        !is_meeting_row(row),
    ensures
        courses_of_rows(above.push(row) + below) == courses_of_rows(above + below),
        carried_labels(above.push(row) + below) == carried_labels(above + below),
    decreases below.len(),
{
    let with = above.push(row) + below;
    let without = above + below;
    if below.len() == 0 {
        assert(with.drop_last() =~= above);
        assert(without =~= above);
    } else {
        let shorter = below.drop_last();
        lemma_non_meeting_row_is_inert(above, row, shorter);
        assert(with.drop_last() =~= above.push(row) + shorter);
        assert(without.drop_last() =~= above + shorter);
        assert(with.last() == below.last());
        assert(without.last() == below.last());
    }
}

/// Every level of `cs` has unique labels.
pub open spec fn courses_well_formed(cs: CoursesView) -> bool {
    labels_unique(cs) && forall|i: int| 0 <= i < cs.len() ==> labels_unique(#[trigger] cs[i].1)
}

impl CourseData {
    /// Labels are unique at each level.
    pub open spec fn well_formed(&self) -> bool {
        courses_well_formed(self@)
    }
}

/// Appends meeting `t` under format `f`, creating the format on first use.
fn add_to_formats(formats: &mut Vec<FormatTimes>, f: &String, t: CourseTime)
    requires
        labels_unique(old(formats)@.map_values(|x: FormatTimes| x@)),
    ensures
        final(formats)@.map_values(|x: FormatTimes| x@) == add_to_format(
            old(formats)@.map_values(|x: FormatTimes| x@),
            f@,
            t@,
        ),
        labels_unique(final(formats)@.map_values(|x: FormatTimes| x@)),
{
    let ghost m = formats@.map_values(|x: FormatTimes| x@);
    let mut i: usize = 0;
    while i < formats.len()
        invariant
            i <= formats.len(),
            m == formats@.map_values(|x: FormatTimes| x@),
            m == old(formats)@.map_values(|x: FormatTimes| x@),
            labels_unique(m),
            forall|j: int| 0 <= j < i ==> m[j].0 != f@,
        decreases formats.len() - i,
    {
        if formats[i].format == *f {
            assert(m[i as int].0 == f@);
            assert(has_label(m, f@));
            assert(label_index(m, f@) == i);
            formats[i].times.push(t);
            assert(formats@[i as int].times@.map_values(|x: CourseTime| x@) =~= m[i as int].1.push(t@));
            assert(formats@.map_values(|x: FormatTimes| x@) =~= add_to_format(m, f@, t@));
            return;
        }
        i = i + 1;
    }
    assert(!has_label(m, f@));
    let mut times: Vec<CourseTime> = Vec::new();
    times.push(t);
    formats.push(FormatTimes { format: f.clone(), times });
    assert(formats@[formats.len() - 1]@.1 =~= seq![t@]);
    assert(formats@.map_values(|x: FormatTimes| x@) =~= add_to_format(m, f@, t@));
}

impl CourseData {
    /// No courses.
    pub fn new() -> (r: CourseData)
        ensures
            r@ == Seq::<(Seq<char>, FormatsView)>::empty(),
            r.well_formed(),
    {
        let r = CourseData { courses: Vec::new() };
        assert(r@ =~= Seq::empty());
        r
    }

    /// Appends meeting `t` under course `c` and format `f`, creating either
    /// entry on first use.
    pub fn add_meeting(&mut self, c: &String, f: &String, t: CourseTime)
        requires
            old(self).well_formed(),
        ensures
            final(self)@ == add_meeting(old(self)@, c@, f@, t@),
            final(self).well_formed(),
    {
        let ghost m = self@;
        let mut i: usize = 0;
        while i < self.courses.len()
            invariant
                i <= self.courses.len(),
                m == self@,
                m == old(self)@,
                courses_well_formed(m),
                forall|j: int| 0 <= j < i ==> m[j].0 != c@,
            decreases self.courses.len() - i,
        {
            if self.courses[i].course == *c {
                assert(m[i as int].0 == c@);
                assert(has_label(m, c@));
                assert(label_index(m, c@) == i);
                assert(labels_unique(m[i as int].1));
                add_to_formats(&mut self.courses[i].formats, f, t);
                assert(self@ =~= add_meeting(m, c@, f@, t@));
                assert forall|j: int| 0 <= j < self@.len() implies labels_unique(#[trigger] self@[j].1) by {
                    if j != i {
                        assert(self@[j] == m[j]);
                    }
                }
                return;
            }
            i = i + 1;
        }
        assert(!has_label(m, c@));
        let mut formats: Vec<FormatTimes> = Vec::new();
        let mut times: Vec<CourseTime> = Vec::new();
        times.push(t);
        assert(times@.map_values(|x: CourseTime| x@) =~= seq![t@]);
        formats.push(FormatTimes { format: f.clone(), times });
        assert(formats@.map_values(|x: FormatTimes| x@) =~= seq![(f@, seq![t@])]);
        self.courses.push(CourseEntry { course: c.clone(), formats });
        assert(self@ =~= add_meeting(m, c@, f@, t@));
        assert forall|j: int| 0 <= j < self@.len() implies labels_unique(#[trigger] self@[j].1) by {
            if j < m.len() {
                assert(self@[j] == m[j]);
            }
        }
    }
}

/// Folds the report table's rows into courses: the first row is a header;
/// each meeting row adds its meeting under the course and format labels
/// carried forward from the rows above, where its own are blank.
pub fn courses_from_rows(rows: &Vec<Vec<String>>) -> (r: CourseData)
    ensures
        r@ == courses_of_table(str_rows(rows@)),
        r.well_formed(),
{
    let mut data = CourseData::new();
    if rows.len() == 0 {
        return data;
    }
    let ghost all = str_rows(rows@);
    let ghost body = all.drop_first();
    let mut course = String::new();
    let mut format = String::new();
    assert(body.take(0) =~= Seq::empty());
    let mut i: usize = 1;
    while i < rows.len()
        invariant
            1 <= i <= rows.len(),
            all == str_rows(rows@),
            body == all.drop_first(),
            data.well_formed(),
            data@ == courses_of_rows(body.take(i - 1)),
            (course@, format@) == carried_labels(body.take(i - 1)),
        decreases rows.len() - i,
    {
        let row = &rows[i];
        let ghost r = body[i - 1];
        assert(r == strs(row@));
        assert(body.take(i as int).drop_last() =~= body.take(i - 1));
        assert(body.take(i as int).last() == r);
        if row.len() >= 4 && !row[2].as_str().is_empty() && !row[3].as_str().is_empty() {
            assert(r[0] == row@[0]@ && r[1] == row@[1]@ && r[2] == row@[2]@ && r[3] == row@[3]@);
            if !row[0].as_str().is_empty() {
                course = row[0].clone();
            }
            if !row[1].as_str().is_empty() {
                format = row[1].clone();
            }
            let t = CourseTime { day_time: row[2].clone(), duration: row[3].clone() };
            data.add_meeting(&course, &format, t);
        }
        i = i + 1;
    }
    assert(body.take(i - 1) =~= body);
    data
}

/// The structural path of the schedule table in the report page.
pub const REPORT_TABLE: &'static str = "body > form > div:nth-child(1) > table > tbody > tr:nth-child(4) > td:nth-child(2) > table > tbody > tr > td > table:nth-child(8)";

/// The selector of a table row.
pub const ROW_SELECTOR: &'static str = "tr";

/// The selector of a table cell.
pub const CELL_SELECTOR: &'static str = "td";

/// The courses of the report page's schedule table; fails when the page
/// has no such table.
pub fn parse_timetable(page: &str) -> (r: Result<CourseData, MalformedPage>)
    ensures
        match r {
            Ok(d) => cell_texts_in_first(page@, REPORT_TABLE@, ROW_SELECTOR@, CELL_SELECTOR@) matches Some(
                rows,
            ) && d@ == courses_of_table(rows) && d.well_formed(),
            Err(_) => cell_texts_in_first(page@, REPORT_TABLE@, ROW_SELECTOR@, CELL_SELECTOR@) is None,
        },
{
    match select_cell_texts(page, REPORT_TABLE, ROW_SELECTOR, CELL_SELECTOR) {
        Some(rows) => Ok(courses_from_rows(&rows)),
        None => Err(MalformedPage),
    }
}

} // verus!
