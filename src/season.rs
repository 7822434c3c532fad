//! Choosing the courses of one season: a course belongs to a season when its
//! label starts with the season's name.
use vstd::prelude::*;
use crate::text::{chars_of, has_prefix, text_equals, text_starts_with};
use crate::timetable::{courses_well_formed, labels_unique, CourseData, CourseEntry, CoursesView};

verus! {

/// The season name that selects every course.
pub const ALL_SEASONS: &'static str = "All";

/// The courses of `cs` whose label starts with `season`, in order.
pub open spec fn courses_with_prefix(cs: CoursesView, season: Seq<char>) -> CoursesView
    decreases cs.len(),
{
    if cs.len() == 0 {
        Seq::empty()
    } else {
        let rest = courses_with_prefix(cs.drop_last(), season);
        if has_prefix(cs.last().0, season) {
            rest.push(cs.last())
        } else {
            rest
        }
    }
}

/// The courses of one season; every course when the season is `All`.
pub open spec fn season_courses(cs: CoursesView, season: Seq<char>) -> CoursesView {
    if season == ALL_SEASONS@ {
        cs
    } else {
        courses_with_prefix(cs, season)
    }
}

/// Each course kept by the prefix filter is a course of `cs`, and the kept
/// courses are well formed when `cs` is.
pub proof fn lemma_prefix_filter_well_formed(cs: CoursesView, season: Seq<char>)
    ensures
        forall|j: int|
            0 <= j < courses_with_prefix(cs, season).len() ==> exists|i: int|
                0 <= i < cs.len() && cs[i] == #[trigger] courses_with_prefix(cs, season)[j],
        courses_well_formed(cs) ==> courses_well_formed(courses_with_prefix(cs, season)),
    decreases cs.len(),
{
    if cs.len() > 0 {
        let init = cs.drop_last();
        lemma_prefix_filter_well_formed(init, season);
        let rest = courses_with_prefix(init, season);
        let kept = courses_with_prefix(cs, season);
        assert forall|j: int| 0 <= j < kept.len() implies exists|i: int|
            0 <= i < cs.len() && cs[i] == #[trigger] kept[j] by {
            if j < rest.len() {
                let i = choose|i: int| 0 <= i < init.len() && init[i] == rest[j];
                assert(cs[i] == kept[j]);
            } else {
                assert(cs[cs.len() - 1] == kept[j]);
            }
        }
        if courses_well_formed(cs) {
            assert(courses_well_formed(init)) by {
                assert forall|i: int| 0 <= i < init.len() implies labels_unique(#[trigger] init[i].1) by {
                    assert(init[i] == cs[i]);
                }
            }
            assert forall|a: int, b: int|
                0 <= a < kept.len() && 0 <= b < kept.len() && a != b implies kept[a].0 != kept[b].0 by {
                if a < rest.len() && b < rest.len() {
                } else if a < rest.len() {
                    let i = choose|i: int| 0 <= i < init.len() && init[i] == rest[a];
                    assert(cs[i] == kept[a]);
                    assert(kept[b] == cs[cs.len() - 1]);
                } else {
                    let i = choose|i: int| 0 <= i < init.len() && init[i] == rest[b];
                    assert(cs[i] == kept[b]);
                    assert(kept[a] == cs[cs.len() - 1]);
                }
            }
            assert forall|j: int| 0 <= j < kept.len() implies labels_unique(#[trigger] kept[j].1) by {
                let i = choose|i: int| 0 <= i < cs.len() && cs[i] == kept[j];
                assert(labels_unique(cs[i].1));
            }
        }
    }
}

/// Filtering by a season other than `All` keeps exactly the courses whose
/// label starts with it: each kept course is a course of `cs` with that
/// prefix, and each course of `cs` with that prefix is kept.
pub proof fn lemma_season_filter_keeps_exactly_prefixed(cs: CoursesView, season: Seq<char>)
    requires
        season != ALL_SEASONS@,
    ensures
        forall|j: int|
            0 <= j < season_courses(cs, season).len() ==> cs.contains(
                #[trigger] season_courses(cs, season)[j],
            ) && has_prefix(season_courses(cs, season)[j].0, season),
        forall|i: int|
            0 <= i < cs.len() && has_prefix(#[trigger] cs[i].0, season) ==> season_courses(
                cs,
                season,
            ).contains(cs[i]),
    decreases cs.len(),
{
    if cs.len() > 0 {
        let init = cs.drop_last();
        lemma_season_filter_keeps_exactly_prefixed(init, season);
        let rest = courses_with_prefix(init, season);
        let kept = courses_with_prefix(cs, season);
        assert(season_courses(init, season) == rest);
        assert(season_courses(cs, season) == kept);
        assert forall|j: int| 0 <= j < kept.len() implies cs.contains(#[trigger] kept[j]) && has_prefix(
            kept[j].0,
            season,
        ) by {
            if j < rest.len() {
                assert(kept[j] == rest[j]);
                let i = choose|i: int| 0 <= i < init.len() && init[i] == rest[j];
                assert(cs[i] == kept[j]);
            } else {
                assert(cs[cs.len() - 1] == kept[j]);
            }
        }
        assert forall|i: int| 0 <= i < cs.len() && has_prefix(#[trigger] cs[i].0, season) implies kept.contains(
            cs[i],
        ) by {
            if i < init.len() {
                assert(init[i] == cs[i]);
                assert(rest.contains(init[i]));
                let j = choose|j: int| 0 <= j < rest.len() && rest[j] == init[i];
                assert(kept[j] == cs[i]);
            } else {
                assert(kept[kept.len() - 1] == cs[i]);
            }
        }
    }
}

/// The courses of `data` that belong to `season`: those whose label starts
/// with it, or all of them when it is `All`.
pub fn filter_season(data: CourseData, season: &str) -> (r: CourseData)
    requires
        data.well_formed(),
    ensures
        r@ == season_courses(data@, season@),
        r.well_formed(),
{
    if text_equals(season, ALL_SEASONS) {
        return data;
    }
    let ghost all = data@;
    proof {
        lemma_prefix_filter_well_formed(all, season@);
    }
    let mut kept: Vec<CourseEntry> = Vec::new();
    assert(kept@.map_values(|c: CourseEntry| c@) =~= courses_with_prefix(all.take(0), season@));
    for entry in it: data.courses.into_iter()
        invariant
            it.seq() == data.courses@,
            all == data.courses@.map_values(|c: CourseEntry| c@),
            kept@.map_values(|c: CourseEntry| c@) == courses_with_prefix(
                all.take(it.index() as int),
                season@,
            ),
    {
        let ghost n = it.index() as int;
        assert(all.take(n + 1).drop_last() =~= all.take(n));
        assert(all.take(n + 1).last() == entry@);
        if text_starts_with(entry.course.as_str(), season) {
            kept.push(entry);
            assert(kept@.map_values(|c: CourseEntry| c@) =~= courses_with_prefix(all.take(n + 1), season@));
        }
    }
    assert(all.take(all.len() as int) =~= all);
    CourseData { courses: kept }
}

/// An ASCII whitespace character: space, tab, line feed, form feed or
/// carriage return.
pub open spec fn is_ascii_space(c: char) -> bool {
    c == ' ' || c == '\t' || c == '\n' || c == '\x0C' || c == '\r'
}

/// The characters of `s` up to its first ASCII whitespace.
pub open spec fn word_at_start(s: Seq<char>) -> Seq<char>
    decreases s.len(),
{
    if s.len() == 0 || is_ascii_space(s[0]) {
        Seq::empty()
    } else {
        seq![s[0]] + word_at_start(s.drop_first())
    }
}

/// The first word of `s`: leading ASCII whitespace skipped, up to the next.
/// Empty when `s` holds no word.
pub open spec fn first_word(s: Seq<char>) -> Seq<char>
    decreases s.len(),
{
    if s.len() > 0 && is_ascii_space(s[0]) {
        first_word(s.drop_first())
    } else {
        word_at_start(s)
    }
}

proof fn lemma_first_word_skips(s: Seq<char>, i: int)
    requires
        0 <= i <= s.len(),
        forall|k: int| 0 <= k < i ==> is_ascii_space(s[k]),
    ensures
        first_word(s) == first_word(s.subrange(i, s.len() as int)),
    decreases i,
{
    if i > 0 {
        let t = s.drop_first();
        lemma_first_word_skips(t, i - 1);
        assert(t.subrange(i - 1, t.len() as int) =~= s.subrange(i, s.len() as int));
    } else {
        assert(s.subrange(0, s.len() as int) =~= s);
    }
}

proof fn lemma_word_at_start(s: Seq<char>, j: int)
    requires
        0 <= j <= s.len(),
        forall|k: int| 0 <= k < j ==> !is_ascii_space(s[k]),
        j == s.len() || is_ascii_space(s[j]),
    ensures
        word_at_start(s) == s.subrange(0, j),
    decreases j,
{
    if j > 0 {
        let t = s.drop_first();
        lemma_word_at_start(t, j - 1);
        assert(seq![s[0]] + t.subrange(0, j - 1) =~= s.subrange(0, j));
    }
}

/// The first word of `s`.
pub fn first_word_of(s: &str) -> (r: String)
    ensures
        r@ == first_word(s@),
{
    let c = chars_of(s);
    let n = c.len();
    let mut i: usize = 0;
    while i < n && (c[i] == ' ' || c[i] == '\t' || c[i] == '\n' || c[i] == '\x0C' || c[i] == '\r')
        invariant
            i <= n,
            n == c.len(),
            forall|k: int| 0 <= k < i ==> is_ascii_space(c@[k]),
        decreases n - i,
    {
        i = i + 1;
    }
    let mut j: usize = i;
    while j < n && !(c[j] == ' ' || c[j] == '\t' || c[j] == '\n' || c[j] == '\x0C' || c[j] == '\r')
        invariant
            i <= j <= n,
            n == c.len(),
            forall|k: int| i <= k < j ==> !is_ascii_space(c@[k]),
        decreases n - j,
    {
        j = j + 1;
    }
    proof {
        lemma_first_word_skips(c@, i as int);
        let rest = c@.subrange(i as int, n as int);
        assert(rest.len() == 0 || !is_ascii_space(rest[0]));
        lemma_word_at_start(rest, j - i);
        assert(rest.subrange(0, j - i) =~= c@.subrange(i as int, j as int));
    }
    s.substring_char(i, j).to_owned()
}

/// The distinct non-empty first words of `labels`, in order of first
/// appearance.
pub open spec fn seasons_of(labels: Seq<Seq<char>>) -> Seq<Seq<char>>
    decreases labels.len(),
{
    if labels.len() == 0 {
        Seq::empty()
    } else {
        let before = seasons_of(labels.drop_last());
        let w = first_word(labels.last());
        if w.len() == 0 || before.contains(w) {
            before
        } else {
            before.push(w)
        }
    }
}

/// The season names to choose from: `All`, then the first word of each
/// course label, each once, in order of first appearance.
pub open spec fn season_choices_spec(cs: CoursesView) -> Seq<Seq<char>> {
    seq![ALL_SEASONS@] + seasons_of(cs.map_values(|c: (Seq<char>, crate::timetable::FormatsView)| c.0))
}

/// The season names to choose from: `All`, then the first word of each
/// course label, each once, in order of first appearance.
pub fn season_choices(data: &CourseData) -> (r: Vec<String>)
    ensures
        r@.map_values(|x: String| x@) == season_choices_spec(data@),
{
    let ghost labels = data@.map_values(|c: (Seq<char>, crate::timetable::FormatsView)| c.0);
    let mut found: Vec<String> = Vec::new();
    let mut i: usize = 0;
    while i < data.courses.len()
        invariant
            i <= data.courses.len(),
            labels == data@.map_values(|c: (Seq<char>, crate::timetable::FormatsView)| c.0),
            found@.map_values(|x: String| x@) == seasons_of(labels.take(i as int)),
        decreases data.courses.len() - i,
    {
        let w = first_word_of(data.courses[i].course.as_str());
        let ghost before = found@.map_values(|x: String| x@);
        assert(labels.take(i + 1).drop_last() =~= labels.take(i as int));
        assert(labels.take(i + 1).last() == data.courses@[i as int].course@);
        let mut seen = false;
        let mut k: usize = 0;
        while k < found.len()
            invariant
                k <= found.len(),
                before == found@.map_values(|x: String| x@),
                seen <==> exists|m: int| 0 <= m < k && before[m] == w@,
            decreases found.len() - k,
        {
            assert(before[k as int] == found@[k as int]@);
            if found[k] == w {
                seen = true;
            }
            assert(seen <==> exists|m: int| 0 <= m < k + 1 && before[m] == w@) by {
                if exists|m: int| 0 <= m < k + 1 && before[m] == w@ {
                    let m = choose|m: int| 0 <= m < k + 1 && before[m] == w@;
                    if m < k {
                    }
                }
            }
            k = k + 1;
        }
        assert(seen <==> before.contains(w@));
        if !seen && !w.as_str().is_empty() {
            found.push(w);
            assert(found@.map_values(|x: String| x@) =~= before.push(w@));
        }
        i = i + 1;
    }
    assert(labels.take(i as int) =~= labels);
    let mut r: Vec<String> = Vec::new();
    r.push(ALL_SEASONS.to_owned());
    r.append(&mut found);
    assert(r@.map_values(|x: String| x@) =~= season_choices_spec(data@));
    r
}

} // verus!
