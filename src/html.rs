//! What the library asks of scraper, the HTML parser: the parts of a
//! page that CSS selectors pick out, as text. Each result is named by a
//! spec function of the arguments alone, since parsing is deterministic.
use vstd::prelude::*;

verus! {

/// The outer HTML of each element that the CSS selector `selector` matches
/// in the HTML document `document`, in document order; `None` where the
/// selector does not parse.
pub uninterp spec fn selected_html(document: Seq<char>, selector: Seq<char>) -> Option<Seq<Seq<char>>>;

/// The text nodes of each element that the CSS selector `selector` matches
/// in the HTML fragment `fragment`, in document order; `None` where the
/// selector does not parse.
pub uninterp spec fn selected_text(fragment: Seq<char>, selector: Seq<char>) -> Option<Seq<Seq<Seq<char>>>>;

/// For each element that the selector `rows` matches in the HTML fragment
/// `fragment`, the text nodes of each element under it that the selector
/// `cells` matches; `None` where a selector does not parse.
pub uninterp spec fn selected_cells(fragment: Seq<char>, rows: Seq<char>, cells: Seq<char>) -> Option<
    Seq<Seq<Seq<Seq<char>>>>,
>;

/// Relies on scraper's `Selector::parse`, `Html::parse_document`,
/// `Html::select` and `ElementRef::html`: the outer HTML of the matches.
#[verifier::external_body]
pub(crate) fn select_html(document: &str, selector: &str) -> (r: Option<Vec<String>>)
    ensures
        r.deep_view() == selected_html(document@, selector@),
{
    let selector = scraper::Selector::parse(selector).ok()?;
    let html = scraper::Html::parse_document(document);
    Some(html.select(&selector).map(|e| e.html()).collect())
}

/// Relies on scraper's `Selector::parse`, `Html::parse_fragment`,
/// `Html::select` and `ElementRef::text`: the text nodes of the matches.
#[verifier::external_body]
pub(crate) fn select_text(fragment: &str, selector: &str) -> (r: Option<Vec<Vec<String>>>)
    ensures
        r.deep_view() == selected_text(fragment@, selector@),
{
    let selector = scraper::Selector::parse(selector).ok()?;
    let html = scraper::Html::parse_fragment(fragment);
    Some(html.select(&selector).map(|e| e.text().map(String::from).collect()).collect())
}

/// Relies on scraper's `Selector::parse`, `Html::parse_fragment`,
/// `Html::select`, `ElementRef::select` and `ElementRef::text`: the text
/// nodes of the cells of each row.
#[verifier::external_body]
pub(crate) fn select_cells(fragment: &str, rows: &str, cells: &str) -> (r: Option<Vec<Vec<Vec<String>>>>)
    ensures
        r.deep_view() == selected_cells(fragment@, rows@, cells@),
{
    let rows = scraper::Selector::parse(rows).ok()?;
    let cells = scraper::Selector::parse(cells).ok()?;
    let html = scraper::Html::parse_fragment(fragment);
    Some(
        html.select(&rows).map(|row| {
            row.select(&cells).map(|c| c.text().map(String::from).collect()).collect()
        }).collect(),
    )
}

/// The HTML that scraper writes back for the fragment `fragment` once parsed.
pub uninterp spec fn fragment_html(fragment: Seq<char>) -> Seq<char>;

/// Relies on scraper's `Html::parse_fragment` and `Html::html`: the
/// fragment as parsed, written back as HTML.
#[verifier::external_body]
pub(crate) fn reparse_fragment(fragment: &str) -> (r: String)
    ensures
        r@ == fragment_html(fragment@),
{
    scraper::Html::parse_fragment(fragment).html()
}

/// For each element that the selector `rows` matches in the HTML document
/// `document`, the text nodes of each element under it that the selector
/// `cells` matches; `None` where a selector does not parse.
pub uninterp spec fn selected_document_cells(document: Seq<char>, rows: Seq<char>, cells: Seq<char>) -> Option<
    Seq<Seq<Seq<Seq<char>>>>,
>;

/// Relies on scraper's `Selector::parse`, `Html::parse_document`,
/// `Html::select`, `ElementRef::select` and `ElementRef::text`: the text
/// nodes of the cells of each row.
#[verifier::external_body]
pub(crate) fn select_document_cells(document: &str, rows: &str, cells: &str) -> (r: Option<
    Vec<Vec<Vec<String>>>,
>)
    ensures
        r.deep_view() == selected_document_cells(document@, rows@, cells@),
{
    let rows = scraper::Selector::parse(rows).ok()?;
    let cells = scraper::Selector::parse(cells).ok()?;
    let html = scraper::Html::parse_document(document);
    Some(
        html.select(&rows).map(|row| {
            row.select(&cells).map(|c| c.text().map(String::from).collect()).collect()
        }).collect(),
    )
}

} // verus!
