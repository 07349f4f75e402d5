//! The street register of Belgrade: reading its pages, one record per street.
use crate::elektrodistribucija_parser::{header_from_text_nodes, joined_trimmed};
use crate::html::{select_document_cells, selected_document_cells};
use crate::text::{push_char, push_text, same_text};
use vstd::prelude::*;

verus! {

/// The rows of the register's table that hold streets.
pub const STREET_ROW_SELECTOR: &'static str = "#ulicebgdoutGrid tbody > tr.pg-row";

/// The cells of a row that hold data: all but the first, a row number.
pub const STREET_DATA_SELECTOR: &'static str = "td:not(:first-child)";

/// One street of the register.
#[derive(Debug, Clone, PartialEq, Eq)]
pub struct Record {
    pub street_name: String,
    pub old_street_name: Option<String>,
    pub municipality: String,
    pub settlement: String,
    pub settlement_part: String,
    pub si_list: Option<String>,
}

pub struct RecordView {
    pub street_name: Seq<char>,
    pub old_street_name: Option<Seq<char>>,
    pub municipality: Seq<char>,
    pub settlement: Seq<char>,
    pub settlement_part: Seq<char>,
    pub si_list: Option<Seq<char>>,
}

impl View for Record {
    type V = RecordView;

    open spec fn view(&self) -> RecordView {
        RecordView {
            street_name: self.street_name@,
            old_street_name: self.old_street_name.deep_view(),
            municipality: self.municipality@,
            settlement: self.settlement@,
            settlement_part: self.settlement_part@,
            si_list: self.si_list.deep_view(),
        }
    }
}

/// The text of a cell whose value may be missing: none where the cell is
/// empty or reads `NULL`.
pub open spec fn nullable_text(nodes: Seq<Seq<char>>) -> Option<Seq<char>> {
    let t = joined_trimmed(nodes);
    if t.len() == 0 || t == "NULL"@ {
        None
    } else {
        Some(t)
    }
}

/// The record that the data cells `cells` of a row give; none where the
/// row has fewer than six.
pub open spec fn record_of(cells: Seq<Seq<Seq<char>>>) -> Option<RecordView> {
    if cells.len() < 6 {
        None
    } else {
        Some(
            RecordView {
                street_name: joined_trimmed(cells[0]),
                old_street_name: nullable_text(cells[1]),
                municipality: joined_trimmed(cells[2]),
                settlement: joined_trimmed(cells[3]),
                settlement_part: joined_trimmed(cells[4]),
                si_list: nullable_text(cells[5]),
            },
        )
    }
}

/// The records of the rows `rows`, in order; none where a row gives none.
pub open spec fn records_of(rows: Seq<Seq<Seq<Seq<char>>>>) -> Option<Seq<RecordView>>
    decreases rows.len(),
{
    if rows.len() == 0 {
        Some(Seq::empty())
    } else {
        match (records_of(rows.drop_last()), record_of(rows.last())) {
            (Some(done), Some(r)) => Some(done.push(r)),
            _ => None,
        }
    }
}

/// The records of a page of the register.
pub open spec fn dataset_of(document: Seq<char>) -> Option<Seq<RecordView>> {
    match selected_document_cells(document, STREET_ROW_SELECTOR@, STREET_DATA_SELECTOR@) {
        Some(rows) => records_of(rows),
        None => None,
    }
}

/// The text of a cell, from its text nodes: each trimmed, one after the other.
pub fn extract_element_text(nodes: &Vec<String>) -> (r: String)
    ensures
        r@ == joined_trimmed(nodes.deep_view()),
{
    header_from_text_nodes(nodes)
}

/// The text of a cell whose value may be missing: `None` where the cell is
/// empty or reads `NULL`.
pub fn extract_nullable_element_text(nodes: &Vec<String>) -> (r: Option<String>)
    ensures
        r.deep_view() == nullable_text(nodes.deep_view()),
{
    let x = extract_element_text(nodes);
    if x.as_str().is_empty() || same_text(x.as_str(), "NULL") {
        None
    } else {
        Some(x)
    }
}

/// The record that the data cells of a row give, the text nodes of each cell
/// in turn; `None` where the row has fewer than six.
pub fn extract_record(cells: &Vec<Vec<String>>) -> (r: Option<Record>)
    ensures
        match r {
            Some(rec) => record_of(cells.deep_view()) == Some(rec@),
            None => record_of(cells.deep_view()) is None,
        },
{
    if cells.len() < 6 {
        return None;
    }
    Some(
        Record {
            street_name: extract_element_text(&cells[0]),
            old_street_name: extract_nullable_element_text(&cells[1]),
            municipality: extract_element_text(&cells[2]),
            settlement: extract_element_text(&cells[3]),
            settlement_part: extract_element_text(&cells[4]),
            si_list: extract_nullable_element_text(&cells[5]),
        },
    )
}

/// The records of the rows, the data cells of each row in turn; `None`
/// where a row gives none.
pub fn extract_records(rows: &Vec<Vec<Vec<String>>>) -> (r: Option<Vec<Record>>)
    ensures
        match r {
            Some(v) => records_of(rows.deep_view()) == Some(v@.map_values(|x: Record| x@)),
            None => records_of(rows.deep_view()) is None,
        },
{
    let mut out: Vec<Record> = Vec::new();
    let mut i: usize = 0;
    assert(out@.map_values(|x: Record| x@) == Seq::<RecordView>::empty());
    while i < rows.len()
        invariant
            i <= rows@.len(),
            records_of(rows.deep_view().subrange(0, i as int)) == Some(
                out@.map_values(|x: Record| x@),
            ),
        decreases rows.len() - i,
    {
        let ghost v = rows.deep_view();
        let ghost done = out@.map_values(|x: Record| x@);
        assert(v.subrange(0, i + 1).drop_last() == v.subrange(0, i as int));
        assert(v.subrange(0, i + 1).last() == rows[i as int].deep_view());
        match extract_record(&rows[i]) {
            Some(rec) => {
                out.push(rec);
                assert(out@.map_values(|x: Record| x@) == done.push(rec@));
            },
            None => {
                proof {
                    records_stay_failed(v, i as int + 1);
                }
                return None;
            },
        }
        i = i + 1;
    }
    assert(rows.deep_view().subrange(0, rows@.len() as int) == rows.deep_view());
    Some(out)
}

/// A row that gives no record fails all the rows after it too.
proof fn records_stay_failed(rows: Seq<Seq<Seq<Seq<char>>>>, j: int)
    requires
        0 <= j <= rows.len(),
        records_of(rows.subrange(0, j)) is None,
    ensures
        records_of(rows) is None,
    decreases rows.len() - j,
{
    if j < rows.len() {
        assert(rows.subrange(0, j + 1).drop_last() == rows.subrange(0, j));
        records_stay_failed(rows, j + 1);
    } else {
        assert(rows.subrange(0, j) == rows);
    }
}

/// The records of a page of the register: one for each street row.
pub fn extract_dataset(body: &str) -> (r: Option<Vec<Record>>)
    ensures
        match r {
            Some(v) => dataset_of(body@) == Some(v@.map_values(|x: Record| x@)),
            None => dataset_of(body@) is None,
        },
{
    match select_document_cells(body, STREET_ROW_SELECTOR, STREET_DATA_SELECTOR) {
        Some(rows) => extract_records(&rows),
        None => None,
    }
}

pub open spec fn or_empty(t: Option<Seq<char>>) -> Seq<char> {
    match t {
        Some(x) => x,
        None => Seq::empty(),
    }
}

/// A record as a line of comma separated values; a missing value is empty.
pub open spec fn record_text(r: RecordView) -> Seq<char> {
    r.street_name + seq![','] + or_empty(r.old_street_name) + seq![','] + r.municipality + seq![',']
        + r.settlement + seq![','] + r.settlement_part + seq![','] + or_empty(r.si_list)
}

impl Record {
    /// The record as a line of comma separated values.
    pub fn to_text(&self) -> (r: String)
        ensures
            r@ == record_text(self@),
    {
        let mut out = String::new();
        push_text(&mut out, self.street_name.as_str());
        push_char(&mut out, ',');
        match &self.old_street_name {
            Some(x) => push_text(&mut out, x.as_str()),
            None => {},
        }
        push_char(&mut out, ',');
        push_text(&mut out, self.municipality.as_str());
        push_char(&mut out, ',');
        push_text(&mut out, self.settlement.as_str());
        push_char(&mut out, ',');
        push_text(&mut out, self.settlement_part.as_str());
        push_char(&mut out, ',');
        match &self.si_list {
            Some(x) => push_text(&mut out, x.as_str()),
            None => {},
        }
        out
    }
}

} // verus!
