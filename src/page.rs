//! Queries on an HTML page, answered by the `scraper` crate.
//!
//! Each query parses the page text, runs CSS selectors over it and hands
//! back plain strings. What a query yields on a given page is named by an
//! uninterpreted function of the page text and the query's arguments alone.
use vstd::prelude::*;
use scraper::{Html, Selector};

verus! {

/// The view of an optional string.
pub open spec fn opt_str(o: Option<String>) -> Option<Seq<char>> {
    match o {
        Some(s) => Some(s@),
        None => None,
    }
}

/// The value of one attribute on every element matching a selector, in
/// document order; `None` when the selector does not parse.
pub uninterp spec fn attr_values(page: Seq<char>, selector: Seq<char>, attr: Seq<char>) -> Option<
    Seq<Option<Seq<char>>>,
>;

/// The values of two attributes on every element matching a selector, in
/// document order; `None` when the selector does not parse.
pub uninterp spec fn attr_pair_values(
    page: Seq<char>,
    selector: Seq<char>,
    first: Seq<char>,
    second: Seq<char>,
) -> Option<Seq<(Option<Seq<char>>, Option<Seq<char>>)>>;

/// The text of every element matching `inner` below the first element
/// matching `outer`, its text nodes joined; `None` when a selector does not
/// parse or nothing matches `outer`.
pub uninterp spec fn inner_texts_in_first(page: Seq<char>, outer: Seq<char>, inner: Seq<char>) -> Option<
    Seq<Seq<char>>,
>;

/// For the first element matching `table`: each element matching `row`
/// below it, as the list of its `cell` elements' texts, every text node
/// trimmed and the pieces joined. `None` when a selector does not parse or
/// nothing matches `table`.
pub uninterp spec fn cell_texts_in_first(
    page: Seq<char>,
    table: Seq<char>,
    row: Seq<char>,
    cell: Seq<char>,
) -> Option<Seq<Seq<Seq<char>>>>;

/// The view of a list of optional strings.
pub open spec fn opt_strs(v: Seq<Option<String>>) -> Seq<Option<Seq<char>>> {
    v.map_values(|o: Option<String>| opt_str(o))
}

/// The view of a list of pairs of optional strings.
pub open spec fn opt_str_pairs(v: Seq<(Option<String>, Option<String>)>) -> Seq<
    (Option<Seq<char>>, Option<Seq<char>>),
> {
    v.map_values(|p: (Option<String>, Option<String>)| (opt_str(p.0), opt_str(p.1)))
}

/// The view of a list of strings.
pub open spec fn strs(v: Seq<String>) -> Seq<Seq<char>> {
    v.map_values(|s: String| s@)
}

/// The view of a table of strings, row by row.
pub open spec fn str_rows(v: Seq<Vec<String>>) -> Seq<Seq<Seq<char>>> {
    v.map_values(|r: Vec<String>| strs(r@))
}

/// Relies on scraper's `Selector::parse`, `Html::parse_document`,
/// `Html::select` and `ElementRef::attr`: the attribute of each match, in
/// document order.
#[verifier::external_body]
pub(crate) fn select_attr(page: &str, selector: &str, attr: &str) -> (r: Option<Vec<Option<String>>>)
    ensures
        match r {
            Some(v) => attr_values(page@, selector@, attr@) == Some(opt_strs(v@)),
            None => attr_values(page@, selector@, attr@) is None,
        },
{
    let sel = Selector::parse(selector).ok()?;
    let doc = Html::parse_document(page);
    Some(doc.select(&sel).map(|e| e.attr(attr).map(|a| a.to_string())).collect())
}

/// Relies on scraper's `Selector::parse`, `Html::parse_document`,
/// `Html::select` and `ElementRef::attr`: two attributes of each match, in
/// document order.
#[verifier::external_body]
pub(crate) fn select_attr_pairs(page: &str, selector: &str, first: &str, second: &str) -> (r: Option<
    Vec<(Option<String>, Option<String>)>,
>)
    ensures
        match r {
            Some(v) => attr_pair_values(page@, selector@, first@, second@) == Some(
                opt_str_pairs(v@),
            ),
            None => attr_pair_values(page@, selector@, first@, second@) is None,
        },
{
    let sel = Selector::parse(selector).ok()?;
    let doc = Html::parse_document(page);
    let owned = |a: Option<&str>| a.map(|s| s.to_string());
    Some(doc.select(&sel).map(|e| (owned(e.attr(first)), owned(e.attr(second)))).collect())
}

/// Relies on scraper's `Selector::parse`, `Html::parse_document`,
/// `Html::select`, `ElementRef::select` and `ElementRef::text`: the text of
/// the matches below the first match of `outer`.
#[verifier::external_body]
pub(crate) fn select_inner_texts(page: &str, outer: &str, inner: &str) -> (r: Option<Vec<String>>)
    ensures
        match r {
            Some(v) => inner_texts_in_first(page@, outer@, inner@) == Some(strs(v@)),
            None => inner_texts_in_first(page@, outer@, inner@) is None,
        },
{
    let outer_sel = Selector::parse(outer).ok()?;
    let inner_sel = Selector::parse(inner).ok()?;
    let doc = Html::parse_document(page);
    let first = doc.select(&outer_sel).next()?;
    Some(first.select(&inner_sel).map(|e| e.text().collect::<String>()).collect())
}

/// Relies on scraper's `Selector::parse`, `Html::parse_document`,
/// `Html::select`, `ElementRef::select` and `ElementRef::text`: the trimmed
/// text of each cell of each row below the first match of `table`.
#[verifier::external_body]
pub(crate) fn select_cell_texts(page: &str, table: &str, row: &str, cell: &str) -> (r: Option<
    Vec<Vec<String>>,
>)
    ensures
        match r {
            Some(v) => cell_texts_in_first(page@, table@, row@, cell@) == Some(str_rows(v@)),
            None => cell_texts_in_first(page@, table@, row@, cell@) is None,
        },
{
    let (t, rs, cs) = (Selector::parse(table).ok()?, Selector::parse(row).ok()?, Selector::parse(cell).ok()?);
    let doc = Html::parse_document(page);
    let found = doc.select(&t).next()?;
    let text = |c: scraper::ElementRef| c.text().map(|s| s.trim()).collect::<String>();
    Some(found.select(&rs).map(|tr| tr.select(&cs).map(text).collect()).collect())
}

} // verus!
