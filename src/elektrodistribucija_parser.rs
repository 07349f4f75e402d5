//! Reading the outage pages of the power distributor: the page's heading
//! and the text of the cells of its tables. The HTML itself is parsed by
//! scraper; what is done with the text it finds is proved here.
use crate::html::{
    fragment_html, reparse_fragment, select_html, select_text, selected_html, selected_text,
};
use crate::text::{chars_of, push_all, trimmed, trimmed_string};
use vstd::prelude::*;

verus! {

/// The HTML of the table at `index` among the tables of a page, parsed as
/// a fragment and written back; `None` where the page has no such table.
pub open spec fn table_html(page: Seq<char>, index: int) -> Option<Seq<char>> {
    match selected_html(page, table_selector()) {
        Some(tables) => if 0 <= index < tables.len() {
            Some(fragment_html(tables[index]))
        } else {
            None
        },
        None => None,
    }
}

fn nth_table_html(page_html: &str, index: usize) -> (r: Option<String>)
    ensures
        r.deep_view() == table_html(page_html@, index as int),
{
    match select_html(page_html, "table") {
        Some(tables) => if index < tables.len() {
            Some(reparse_fragment(tables[index].as_str()))
        } else {
            None
        },
        None => None,
    }
}

/// The HTML of the first table of a page: the one that holds its heading.
pub fn get_header_table_html(page_html: &str) -> (r: Option<String>)
    ensures
        r.deep_view() == table_html(page_html@, 0),
{
    nth_table_html(page_html, 0)
}

/// The HTML of the second table of a page: the one that lists the outages.
pub fn get_content_table_html(page_html: &str) -> (r: Option<String>)
    ensures
        r.deep_view() == table_html(page_html@, 1),
{
    nth_table_html(page_html, 1)
}

pub open spec fn table_selector() -> Seq<char> {
    "table"@
}

pub open spec fn header_selector() -> Seq<char> {
    "tbody > tr > td > b"@
}

/// The text nodes `nodes`, each trimmed, one after the other.
pub open spec fn joined_trimmed(nodes: Seq<Seq<char>>) -> Seq<char>
    decreases nodes.len(),
{
    if nodes.len() == 0 {
        Seq::empty()
    } else {
        joined_trimmed(nodes.drop_last()) + trimmed(nodes.last())
    }
}

/// The heading in the HTML of a table: the trimmed text of the first bold
/// text of its cells; empty where there is none.
pub open spec fn header_of_table(table: Seq<char>) -> Seq<char> {
    match selected_text(table, header_selector()) {
        Some(found) => if found.len() > 0 {
            joined_trimmed(found[0])
        } else {
            Seq::empty()
        },
        None => Seq::empty(),
    }
}

/// The heading of a page: the heading of its first table; empty where the
/// page has no table.
pub open spec fn page_header(page: Seq<char>) -> Seq<char> {
    match selected_html(page, table_selector()) {
        Some(tables) => if tables.len() > 0 {
            header_of_table(tables[0])
        } else {
            Seq::empty()
        },
        None => Seq::empty(),
    }
}

/// The chars of `s` after the last `c`; all of `s` where it holds no `c`.
pub open spec fn after_last(s: Seq<char>, c: char) -> Seq<char>
    decreases s.len(),
{
    if s.len() == 0 {
        s
    } else if s.last() == c {
        Seq::empty()
    } else {
        after_last(s.drop_last(), c).push(s.last())
    }
}

/// The date of a heading: the text after its last `:`, trimmed.
pub open spec fn date_of_header(header: Seq<char>) -> Seq<char> {
    trimmed(after_last(header, ':'))
}

/// Where the chars after the last `c` in `s` start: one past the last `c`,
/// or 0.
pub(crate) fn after_last_start(s: &Vec<char>, c: char) -> (r: usize)
    ensures
        r <= s@.len(),
        after_last(s@, c) == s@.subrange(r as int, s@.len() as int),
{
    let mut i: usize = s.len();
    assert(s@.subrange(0, i as int) == s@);
    assert(s@.subrange(i as int, i as int) == Seq::<char>::empty());
    while i > 0 && s[i - 1] != c
        invariant
            i <= s@.len(),
            after_last(s@, c) == after_last(s@.subrange(0, i as int), c) + s@.subrange(
                i as int,
                s@.len() as int,
            ),
        decreases i,
    {
        let ghost t = s@.subrange(0, i as int);
        assert(t.drop_last() == s@.subrange(0, i - 1));
        assert(s@.subrange(i - 1, s@.len() as int) == seq![t.last()] + s@.subrange(
            i as int,
            s@.len() as int,
        ));
        i = i - 1;
    }
    if i > 0 {
        assert(s@.subrange(0, i as int).last() == c);
    }
    i
}

/// The text nodes of a heading, each trimmed, one after the other.
pub fn header_from_text_nodes(nodes: &Vec<String>) -> (r: String)
    ensures
        r@ == joined_trimmed(nodes.deep_view()),
{
    let mut out = String::new();
    let mut i: usize = 0;
    while i < nodes.len()
        invariant
            i <= nodes@.len(),
            out@ == joined_trimmed(nodes.deep_view().subrange(0, i as int)),
        decreases nodes.len() - i,
    {
        let chars = chars_of(nodes[i].as_str());
        let t = trimmed_string(&chars, 0, chars.len());
        let tc = chars_of(t.as_str());
        push_all(&mut out, &tc, 0);
        proof {
            let v = nodes.deep_view();
            assert(v.subrange(0, i + 1).drop_last() == v.subrange(0, i as int));
            assert(chars@.subrange(0, chars@.len() as int) == chars@);
            assert(tc@.subrange(0, tc@.len() as int) == tc@);
        }
        i = i + 1;
    }
    assert(nodes.deep_view().subrange(0, nodes@.len() as int) == nodes.deep_view());
    out
}

/// The heading of a page: the trimmed text of the first bold text in the
/// cells of its first table; empty where the page has no table.
pub fn get_page_header(page_html: &str) -> (r: String)
    ensures
        r@ == page_header(page_html@),
{
    let tables = match select_html(page_html, "table") {
        Some(t) => t,
        None => {
            return String::new();
        },
    };
    if tables.len() == 0 {
        return String::new();
    }
    let found = match select_text(tables[0].as_str(), "tbody > tr > td > b") {
        Some(f) => f,
        None => {
            return String::new();
        },
    };
    if found.len() == 0 {
        return String::new();
    }
    header_from_text_nodes(&found[0])
}

/// The date that a heading gives: the text after its last `:`, trimmed.
pub fn date_from_header(header: &str) -> (r: String)
    ensures
        r@ == date_of_header(header@),
{
    let chars = chars_of(header);
    let start = after_last_start(&chars, ':');
    trimmed_string(&chars, start, chars.len())
}

/// Why the outage data of a page could not be read.
#[derive(Debug, Clone, Copy, PartialEq, Eq, Structural)]
pub enum PageError {
    /// The page has fewer tables than it should.
    MissingTable,
    /// A CSS selector did not parse.
    BadSelector,
    /// The table of outages has no rows.
    MissingHeadingRow,
    /// The heading row lacks one of the columns that are read.
    MissingColumn,
    /// A row lacks a cell that is read.
    MissingCell,
    /// The date of the page is in none of the known formats.
    InvalidDate,
}

/// The date of a page, from its heading; the heading always yields one.
pub fn get_page_date(page_html: &str) -> (r: Result<String, PageError>)
    ensures
        r matches Ok(d) && d@ == date_of_header(page_header(page_html@)),
{
    let header = get_page_header(page_html);
    Ok(date_from_header(header.as_str()))
}

} // verus!
