//! The outage records of a page: for each row of the outage table, the
//! region, the time, the date and the parsed addresses.
use crate::address::{row_text, AddressRow, AddressView};
use crate::addresses::row_spec;
use crate::elektrodistribucija_parser::{
    after_last, after_last_start, get_page_header, page_header, PageError,
};
use crate::html::{select_cells, select_html, selected_cells, selected_html};
use crate::text::{
    chars_of, push_all, push_char, push_text, same_text, trim_end, trimmed_end_string,
};
use crate::translit::{translit, translit_spec};
use std::fmt::Write;
use vstd::prelude::*;

verus! {

/// The date that chrono's `NaiveDate::parse_from_str` reads from `text` in
/// the format `format`, as year, month and day.
pub uninterp spec fn parsed_date(text: Seq<char>, format: Seq<char>) -> Option<(i32, u32, u32)>;

/// The text that chrono writes for the date `year`-`month`-`day` in the
/// format `format`; `None` where the date does not exist or the format
/// does not parse.
pub uninterp spec fn formatted_date(year: i32, month: u32, day: u32, format: Seq<char>) -> Option<
    Seq<char>,
>;

/// Relies on chrono's `NaiveDate::parse_from_str`, and on `Datelike`'s
/// `year`, `month` and `day` to take the date apart.
#[verifier::external_body]
fn parse_date(text: &str, format: &str) -> (r: Option<(i32, u32, u32)>)
    ensures
        r == parsed_date(text@, format@),
{
    let date = chrono::NaiveDate::parse_from_str(text, format).ok()?;
    Some((chrono::Datelike::year(&date), chrono::Datelike::month(&date), chrono::Datelike::day(&date)))
}

/// Relies on chrono's `NaiveDate::from_ymd_opt` and `NaiveDate::format`:
/// the date written in the format.
#[verifier::external_body]
fn format_ymd(year: i32, month: u32, day: u32, format: &str) -> (r: Option<String>)
    ensures
        r.deep_view() == formatted_date(year, month, day, format@),
{
    let date = chrono::NaiveDate::from_ymd_opt(year, month, day)?;
    let mut out = String::new();
    write!(out, "{}", date.format(format)).ok()?;
    Some(out)
}

/// A date as `dd-mm-yyyy`, read from `yyyy-mm-dd` or else from `dd-mm-yyyy`.
pub open spec fn date_reformatted(date: Seq<char>) -> Option<Seq<char>> {
    let parsed = match parsed_date(date, "%Y-%m-%d"@) {
        Some(d) => Some(d),
        None => parsed_date(date, "%d-%m-%Y"@),
    };
    match parsed {
        Some((y, m, d)) => formatted_date(y, m, d, "%d-%m-%Y"@),
        None => None,
    }
}

/// Writes the date `date` as `dd-mm-yyyy`; it may be given as `yyyy-mm-dd`
/// or as `dd-mm-yyyy`.
pub fn format_date(date: &str) -> (r: Result<String, PageError>)
    ensures
        match r {
            Ok(s) => date_reformatted(date@) == Some(s@),
            Err(e) => date_reformatted(date@) is None && e == PageError::InvalidDate,
        },
{
    let parsed = match parse_date(date, "%Y-%m-%d") {
        Some(d) => Some(d),
        None => parse_date(date, "%d-%m-%Y"),
    };
    match parsed {
        Some((y, m, d)) => match format_ymd(y, m, d, "%d-%m-%Y") {
            Some(s) => Ok(s),
            None => Err(PageError::InvalidDate),
        },
        None => Err(PageError::InvalidDate),
    }
}

/// The pieces of `s` between the chars `c`, empty ones included.
pub open spec fn split_on(s: Seq<char>, c: char) -> Seq<Seq<char>>
    decreases s.len(),
{
    if s.len() == 0 {
        seq![Seq::empty()]
    } else {
        let p = split_on(s.drop_last(), c);
        if s.last() == c {
            p.push(Seq::empty())
        } else {
            p.update(p.len() - 1, p.last().push(s.last()))
        }
    }
}

proof fn split_on_has_a_piece(s: Seq<char>, c: char)
    ensures
        split_on(s, c).len() >= 1,
    decreases s.len(),
{
    if s.len() > 0 {
        split_on_has_a_piece(s.drop_last(), c);
    }
}

/// The non-empty pieces of `pieces`, with `sep` between each two.
pub open spec fn join_nonempty(pieces: Seq<Seq<char>>, sep: char) -> Seq<char>
    decreases pieces.len(),
{
    if pieces.len() == 0 {
        Seq::empty()
    } else {
        let a = join_nonempty(pieces.drop_last(), sep);
        let l = pieces.last();
        if l.len() == 0 {
            a
        } else if a.len() == 0 {
            l
        } else {
            a.push(sep) + l
        }
    }
}

/// The date in a heading: its last word, with the parts between its dots
/// joined by dashes (`01.02.2021.` gives `01-02-2021`).
pub open spec fn date_of_heading(header: Seq<char>) -> Seq<char> {
    join_nonempty(split_on(after_last(header, ' '), '.'), '-')
}

/// `s` up to the first ` - `; all of `s` where it holds none.
pub open spec fn before_first_dash(s: Seq<char>) -> Seq<char>
    decreases s.len(),
{
    if s.len() == 0 {
        s
    } else if s.len() >= 3 && s[0] == ' ' && s[1] == '-' && s[2] == ' ' {
        Seq::empty()
    } else {
        seq![s[0]] + before_first_dash(s.drop_first())
    }
}

/// The last word of a heading, with the parts between its dots joined by
/// dashes.
pub fn date_text(header: &str) -> (r: String)
    ensures
        r@ == date_of_heading(header@),
{
    let s = chars_of(header);
    let from = after_last_start(&s, ' ');
    let ghost t = s@.subrange(from as int, s@.len() as int);
    let mut out = String::new();
    let mut start: usize = from;
    let mut i: usize = from;
    proof {
        assert(t.subrange(0, 0) == Seq::<char>::empty());
    }
    while i < s.len()
        invariant
            from <= start <= i <= s@.len(),
            t == s@.subrange(from as int, s@.len() as int),
            out@ == join_nonempty(split_on(t.subrange(0, i - from), '.').drop_last(), '-'),
            split_on(t.subrange(0, i - from), '.').last() == s@.subrange(start as int, i as int),
            split_on(t.subrange(0, i - from), '.').len() >= 1,
        decreases s.len() - i,
    {
        let ghost k: int = i - from;
        let ghost p = split_on(t.subrange(0, k), '.');
        let ghost out_before = out@;
        assert(t.subrange(0, k + 1).drop_last() == t.subrange(0, k));
        assert(t.subrange(0, k + 1).last() == s@[i as int]);
        if s[i] == '.' {
            if start < i {
                if !out.as_str().is_empty() {
                    push_char(&mut out, '-');
                }
                let piece = crate::text::string_of(&s, start, i);
                let pc = chars_of(piece.as_str());
                push_all(&mut out, &pc, 0);
                assert(pc@.subrange(0, pc@.len() as int) == pc@);
            }
            assert(split_on(t.subrange(0, k + 1), '.') == p.push(Seq::empty()));
            assert(p.push(Seq::<char>::empty()).drop_last() == p);
            assert(p == p.drop_last().push(p.last()));
            start = i + 1;
        } else {
            let ghost q = p.update(p.len() - 1, p.last().push(s@[i as int]));
            assert(split_on(t.subrange(0, k + 1), '.') == q);
            assert(q.drop_last() == p.drop_last());
            assert(s@.subrange(start as int, i + 1) == s@.subrange(start as int, i as int).push(
                s@[i as int],
            ));
        }
        i = i + 1;
    }
    let ghost p = split_on(t.subrange(0, i - from), '.');
    assert(t.subrange(0, i - from) == t);
    assert(p == p.drop_last().push(p.last()));
    if start < i {
        if !out.as_str().is_empty() {
            push_char(&mut out, '-');
        }
        let piece = crate::text::string_of(&s, start, i);
        let pc = chars_of(piece.as_str());
        push_all(&mut out, &pc, 0);
        assert(pc@.subrange(0, pc@.len() as int) == pc@);
    }
    out
}

/// The text of a heading up to its first ` - `: the city of the page.
pub fn city_text(header: &str) -> (r: String)
    ensures
        r@ == before_first_dash(header@),
{
    let s = chars_of(header);
    let mut i: usize = 0;
    assert(s@.subrange(0, 0) + s@.subrange(0, s@.len() as int) == s@);
    while i < s.len() && !(s.len() - i >= 3 && s[i] == ' ' && s[i + 1] == '-' && s[i + 2] == ' ')
        invariant
            i <= s@.len(),
            before_first_dash(s@) == s@.subrange(0, i as int) + before_first_dash(
                s@.subrange(i as int, s@.len() as int),
            ),
        decreases s.len() - i,
    {
        let ghost t = s@.subrange(i as int, s@.len() as int);
        assert(t.drop_first() == s@.subrange(i + 1, s@.len() as int));
        assert(s@.subrange(0, i + 1) == s@.subrange(0, i as int) + seq![t[0]]);
        i = i + 1;
    }
    let ghost t = s@.subrange(i as int, s@.len() as int);
    if i < s.len() {
        assert(t.len() >= 3 && t[0] == ' ' && t[1] == '-' && t[2] == ' ');
    }
    assert(before_first_dash(t) == Seq::<char>::empty());
    crate::text::string_of(&s, 0, i)
}


/// A stored copy of an outage page.
#[derive(Debug)]
pub struct ElectricityFailuresRawData {
    pub id: String,
    pub date: String,
    pub url: String,
    pub html: String,
    pub hash: String,
    pub version: i32,
}

/// One outage: where, when, and the addresses it reaches.
#[derive(Debug, Clone)]
pub struct ElectricityFailuresData {
    pub city: String,
    pub region: String,
    pub time: String,
    pub date: String,
    pub addresses: AddressRow,
}

pub struct FailureView {
    pub city: Seq<char>,
    pub region: Seq<char>,
    pub time: Seq<char>,
    pub date: Seq<char>,
    pub addresses: Seq<AddressView>,
}

impl View for ElectricityFailuresData {
    type V = FailureView;

    open spec fn view(&self) -> FailureView {
        FailureView {
            city: self.city@,
            region: self.region@,
            time: self.time@,
            date: self.date@,
            addresses: self.addresses@,
        }
    }
}

/// An outage as written: `{ city: .., region: .., time: .., date: ..,
/// addresses: .. }`, the addresses one per line.
pub open spec fn failure_text(f: FailureView) -> Seq<char> {
    "{ city: "@ + f.city + ", region: "@ + f.region + ", time: "@ + f.time + ", date: "@ + f.date
        + ", addresses: "@ + row_text(f.addresses) + " }"@
}

impl ElectricityFailuresData {
    /// The outage as written, for logs.
    pub fn to_text(&self) -> (r: String)
        ensures
            r@ == failure_text(self@),
    {
        let mut out = String::new();
        push_text(&mut out, "{ city: ");
        push_text(&mut out, self.city.as_str());
        push_text(&mut out, ", region: ");
        push_text(&mut out, self.region.as_str());
        push_text(&mut out, ", time: ");
        push_text(&mut out, self.time.as_str());
        push_text(&mut out, ", date: ");
        push_text(&mut out, self.date.as_str());
        push_text(&mut out, ", addresses: ");
        let row = self.addresses.to_text();
        push_text(&mut out, row.as_str());
        push_text(&mut out, " }");
        out
    }
}

pub open spec fn failures_view(r: Result<Vec<ElectricityFailuresData>, PageError>) -> Result<
    Seq<FailureView>,
    PageError,
> {
    match r {
        Ok(v) => Ok(v@.map_values(|d: ElectricityFailuresData| d@)),
        Err(e) => Err(e),
    }
}

/// The text of a cell: its text nodes one after the other.
pub open spec fn cell_text(nodes: Seq<Seq<char>>) -> Seq<char>
    decreases nodes.len(),
{
    if nodes.len() == 0 {
        Seq::empty()
    } else {
        cell_text(nodes.drop_last()) + nodes.last()
    }
}

/// The first column from `i` on whose heading cell reads `title`.
pub open spec fn column_from(heading: Seq<Seq<Seq<char>>>, title: Seq<char>, i: int) -> Option<int>
    decreases heading.len() - i,
{
    if i < 0 || i >= heading.len() {
        None
    } else if cell_text(heading[i]) == title {
        Some(i)
    } else {
        column_from(heading, title, i + 1)
    }
}

/// What a row of the outage table gives, where its region, time and street
/// cells are the columns `region`, `time` and `street`: an outage where its
/// street cell, transliterated and without white space at its end, parses
/// as addresses; nothing where it does not; an error where a cell is missing
/// or the date cannot be read.
#[verifier::opaque]
pub open spec fn failure_of_row(
    city: Seq<char>,
    date: Seq<char>,
    region: int,
    time: int,
    street: int,
    row: Seq<Seq<Seq<char>>>,
) -> Result<Option<FailureView>, PageError> {
    if region >= row.len() || time >= row.len() || street >= row.len() {
        Err(PageError::MissingCell)
    } else {
        match row_spec(trim_end(translit_spec(cell_text(row[street])))) {
            None => Ok(None),
            Some(addresses) => match date_reformatted(date) {
                None => Err(PageError::InvalidDate),
                Some(d) => Ok(
                    Some(
                        FailureView {
                            city,
                            region: cell_text(row[region]),
                            time: cell_text(row[time]),
                            date: d,
                            addresses,
                        },
                    ),
                ),
            },
        }
    }
}

/// The outages of the rows `rows`, in order; the first error of a row ends it.
pub open spec fn failures_of_rows(
    city: Seq<char>,
    date: Seq<char>,
    region: int,
    time: int,
    street: int,
    rows: Seq<Seq<Seq<Seq<char>>>>,
) -> Result<Seq<FailureView>, PageError>
    decreases rows.len(),
{
    if rows.len() == 0 {
        Ok(Seq::empty())
    } else {
        match failures_of_rows(city, date, region, time, street, rows.drop_last()) {
            Err(e) => Err(e),
            Ok(done) => match failure_of_row(city, date, region, time, street, rows.last()) {
                Err(e) => Err(e),
                Ok(None) => Ok(done),
                Ok(Some(f)) => Ok(done.push(f)),
            },
        }
    }
}

/// The outages of a table given as the cells of its rows: the first row
/// names the columns, each other row is one outage.
pub open spec fn table_failures(city: Seq<char>, date: Seq<char>, rows: Seq<Seq<Seq<Seq<char>>>>) -> Result<
    Seq<FailureView>,
    PageError,
> {
    if rows.len() == 0 {
        Err(PageError::MissingHeadingRow)
    } else {
        match (
            column_from(rows[0], "Улице"@, 0),
            column_from(rows[0], "Време"@, 0),
            column_from(rows[0], "Општина"@, 0),
        ) {
            (Some(street), Some(time), Some(region)) => failures_of_rows(
                city,
                date,
                region,
                time,
                street,
                rows.drop_first(),
            ),
            _ => Err(PageError::MissingColumn),
        }
    }
}

/// The outages of a page: the city and date come from its heading, the
/// outages from the rows of its second table.
pub open spec fn page_failures(html: Seq<char>) -> Result<Seq<FailureView>, PageError> {
    let header = page_header(html);
    match selected_html(html, "table"@) {
        None => Err(PageError::BadSelector),
        Some(tables) => if tables.len() < 2 {
            Err(PageError::MissingTable)
        } else {
            match selected_cells(tables[1], "tr"@, "td"@) {
                None => Err(PageError::BadSelector),
                Some(rows) => table_failures(
                    before_first_dash(header),
                    date_of_heading(header),
                    rows,
                ),
            }
        },
    }
}

/// The text of a cell, from its text nodes.
pub fn cell_string(nodes: &Vec<String>) -> (r: String)
    ensures
        r@ == cell_text(nodes.deep_view()),
{
    let mut out = String::new();
    let mut i: usize = 0;
    while i < nodes.len()
        invariant
            i <= nodes@.len(),
            out@ == cell_text(nodes.deep_view().subrange(0, i as int)),
        decreases nodes.len() - i,
    {
        let chars = chars_of(nodes[i].as_str());
        push_all(&mut out, &chars, 0);
        proof {
            let v = nodes.deep_view();
            assert(v.subrange(0, i + 1).drop_last() == v.subrange(0, i as int));
            assert(chars@.subrange(0, chars@.len() as int) == chars@);
        }
        i = i + 1;
    }
    assert(nodes.deep_view().subrange(0, nodes@.len() as int) == nodes.deep_view());
    out
}

/// The first column whose heading cell reads `title`.
fn find_column(heading: &Vec<Vec<String>>, title: &str) -> (r: Option<usize>)
    ensures
        match r {
            Some(i) => column_from(heading.deep_view(), title@, 0) == Some(i as int),
            None => column_from(heading.deep_view(), title@, 0) is None,
        },
{
    let mut i: usize = 0;
    while i < heading.len()
        invariant
            i <= heading@.len(),
            column_from(heading.deep_view(), title@, i as int) == column_from(
                heading.deep_view(),
                title@,
                0,
            ),
        decreases heading.len() - i,
    {
        let text = cell_string(&heading[i]);
        if same_text(text.as_str(), title) {
            return Some(i);
        }
        i = i + 1;
    }
    None
}

fn failure_from_row(
    city: &str,
    date: &str,
    region: usize,
    time: usize,
    street: usize,
    row: &Vec<Vec<String>>,
) -> (r: Result<Option<ElectricityFailuresData>, PageError>)
    ensures
        match r {
            Ok(Some(d)) => failure_of_row(
                city@,
                date@,
                region as int,
                time as int,
                street as int,
                row.deep_view(),
            ) == Ok::<Option<FailureView>, PageError>(Some(d@)),
            Ok(None) => failure_of_row(
                city@,
                date@,
                region as int,
                time as int,
                street as int,
                row.deep_view(),
            ) == Ok::<Option<FailureView>, PageError>(None),
            Err(e) => failure_of_row(
                city@,
                date@,
                region as int,
                time as int,
                street as int,
                row.deep_view(),
            ) == Err::<Option<FailureView>, PageError>(e),
        },
{
    reveal(failure_of_row);
    if region >= row.len() || time >= row.len() || street >= row.len() {
        return Err(PageError::MissingCell);
    }
    let region_text = cell_string(&row[region]);
    let time_text = cell_string(&row[time]);
    let street_text = cell_string(&row[street]);
    let latin = translit(street_text.as_str());
    let latin_chars = chars_of(latin.as_str());
    let cell = trimmed_end_string(&latin_chars);
    match AddressRow::parse(cell.as_str()) {
        Err(_) => Ok(None),
        Ok(addresses) => match format_date(date) {
            Err(e) => Err(e),
            Ok(d) => Ok(
                Some(
                    ElectricityFailuresData {
                        city: city.to_owned(),
                        region: region_text,
                        time: time_text,
                        date: d,
                        addresses,
                    },
                ),
            ),
        },
    }
}

/// An error in the outages of the first rows is the error of all of them.
proof fn row_error_stays(
    city: Seq<char>,
    date: Seq<char>,
    region: int,
    time: int,
    street: int,
    rows: Seq<Seq<Seq<Seq<char>>>>,
    j: int,
)
    requires
        0 <= j <= rows.len(),
        failures_of_rows(city, date, region, time, street, rows.subrange(0, j)) is Err,
    ensures
        failures_of_rows(city, date, region, time, street, rows) == failures_of_rows(
            city,
            date,
            region,
            time,
            street,
            rows.subrange(0, j),
        ),
    decreases rows.len() - j,
{
    if j < rows.len() {
        assert(rows.subrange(0, j + 1).drop_last() == rows.subrange(0, j));
        row_error_stays(city, date, region, time, street, rows, j + 1);
    } else {
        assert(rows.subrange(0, j) == rows);
    }
}

/// The outages of a table given as the text nodes of the cells of its rows:
/// the first row names the columns (`Општина`, `Време`, `Улице`), each
/// other row is one outage, kept where its street cell parses as addresses.
pub fn rows_to_data(city: &str, date: &str, rows: &Vec<Vec<Vec<String>>>) -> (r: Result<
    Vec<ElectricityFailuresData>,
    PageError,
>)
    ensures
        failures_view(r) == table_failures(city@, date@, rows.deep_view()),
{
    if rows.len() == 0 {
        return Err(PageError::MissingHeadingRow);
    }
    let street = find_column(&rows[0], "Улице");
    let time = find_column(&rows[0], "Време");
    let region = find_column(&rows[0], "Општина");
    let (street, time, region) = match (street, time, region) {
        (Some(s), Some(t), Some(g)) => (s, t, g),
        _ => {
            return Err(PageError::MissingColumn);
        },
    };
    let ghost all = rows.deep_view();
    let ghost body = all.drop_first();
    assert(table_failures(city@, date@, all) == failures_of_rows(
        city@,
        date@,
        region as int,
        time as int,
        street as int,
        body,
    ));
    let mut out: Vec<ElectricityFailuresData> = Vec::new();
    let mut i: usize = 1;
    assert(body.subrange(0, 0) == Seq::<Seq<Seq<Seq<char>>>>::empty());
    assert(out@.map_values(|d: ElectricityFailuresData| d@) == Seq::<FailureView>::empty());
    while i < rows.len()
        invariant
            1 <= i <= rows@.len(),
            all == rows.deep_view(),
            body == all.drop_first(),
            table_failures(city@, date@, all) == failures_of_rows(
                city@,
                date@,
                region as int,
                time as int,
                street as int,
                body,
            ),
            failures_of_rows(
                city@,
                date@,
                region as int,
                time as int,
                street as int,
                body.subrange(0, i - 1),
            ) == Ok::<Seq<FailureView>, PageError>(
                out@.map_values(|d: ElectricityFailuresData| d@),
            ),
        decreases rows.len() - i,
    {
        let ghost done = out@.map_values(|d: ElectricityFailuresData| d@);
        let ghost prefix = body.subrange(0, i as int);
        assert(prefix.drop_last() == body.subrange(0, i - 1));
        assert(prefix.last() == rows[i as int].deep_view());
        assert(prefix.len() > 0);
        match failure_from_row(city, date, region, time, street, &rows[i]) {
            Err(e) => {
                proof {
                    assert(failures_of_rows(
                        city@,
                        date@,
                        region as int,
                        time as int,
                        street as int,
                        prefix,
                    ) == Err::<Seq<FailureView>, PageError>(e));
                    row_error_stays(
                        city@,
                        date@,
                        region as int,
                        time as int,
                        street as int,
                        body,
                        i as int,
                    );
                }
                return Err(e);
            },
            Ok(None) => {},
            Ok(Some(d)) => {
                out.push(d);
                assert(out@.map_values(|d: ElectricityFailuresData| d@) == done.push(d@));
            },
        }
        i = i + 1;
    }
    assert(body.subrange(0, rows@.len() - 1) == body);
    Ok(out)
}

/// The outages of a stored page: the city is the heading up to its first
/// ` - `, the date the heading's last word with dashes for dots, the
/// outages those of the rows of the page's second table.
pub fn parse_raw_data_to_data(data: &ElectricityFailuresRawData) -> (r: Result<
    Vec<ElectricityFailuresData>,
    PageError,
>)
    ensures
        failures_view(r) == page_failures(data.html@),
{
    let header = get_page_header(data.html.as_str());
    let date = date_text(header.as_str());
    let city = city_text(header.as_str());
    let tables = match select_html(data.html.as_str(), "table") {
        Some(t) => t,
        None => {
            return Err(PageError::BadSelector);
        },
    };
    if tables.len() < 2 {
        return Err(PageError::MissingTable);
    }
    let rows = match select_cells(tables[1].as_str(), "tr", "td") {
        Some(r) => r,
        None => {
            return Err(PageError::BadSelector);
        },
    };
    rows_to_data(city.as_str(), date.as_str(), &rows)
}

/// The highest version among the stored copies of a page, given as
/// version and hash, with the hash of the first copy that has it; version 0
/// and no hash where no copy has a version above 0.
pub open spec fn last_version_of(copies: Seq<(i32, String)>) -> (i32, Option<Seq<char>>)
    decreases copies.len(),
{
    if copies.len() == 0 {
        (0, None)
    } else {
        let best = last_version_of(copies.drop_last());
        let (version, hash) = copies.last();
        if version > best.0 {
            (version, Some(hash@))
        } else {
            best
        }
    }
}

/// The highest version among the stored copies of a page and the hash of
/// the first copy that has it.
pub fn last_version(copies: &Vec<(i32, String)>) -> (r: (i32, Option<String>))
    ensures
        r.0 == last_version_of(copies@).0,
        r.1.deep_view() == last_version_of(copies@).1,
{
    let mut version: i32 = 0;
    let mut hash: Option<String> = None;
    let mut i: usize = 0;
    while i < copies.len()
        invariant
            i <= copies@.len(),
            version == last_version_of(copies@.subrange(0, i as int)).0,
            hash.deep_view() == last_version_of(copies@.subrange(0, i as int)).1,
        decreases copies.len() - i,
    {
        assert(copies@.subrange(0, i + 1).drop_last() == copies@.subrange(0, i as int));
        let (v, h) = &copies[i];
        if *v > version {
            version = *v;
            hash = Some(h.clone());
        }
        i = i + 1;
    }
    assert(copies@.subrange(0, copies@.len() as int) == copies@);
    (version, hash)
}

/// The version under which a fetched copy of a page with the hash `hash`
/// is stored, given the last stored version and its hash; `None` where the
/// page has not changed since.
pub fn next_version(last: (i32, Option<String>), hash: &str) -> (r: Option<i32>)
    requires
        last.0 < i32::MAX,
    ensures
        r == (if last.1.deep_view() == Some(hash@) {
            None
        } else {
            Some((last.0 + 1) as i32)
        }),
{
    match &last.1 {
        Some(h) => if same_text(h.as_str(), hash) {
            return None;
        },
        None => {},
    }
    Some(last.0 + 1)
}

} // verus!
