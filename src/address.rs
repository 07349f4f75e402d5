//! The structured form of an address cell: settlements, streets and the
//! buildings on them.
use crate::text::{push_char, push_text};
use vstd::prelude::*;

verus! {

/// A building number, such as `36` or `36A/1`.
#[derive(Clone, Debug, PartialEq, Eq)]
pub struct BuildingNumber {
    pub value: usize,
    /// What follows the digits: letters, and maybe `/` with more digits.
    pub extension: Option<String>,
}

/// A range of building numbers, kept as written (also when `from` is the larger).
#[derive(Clone, Debug, PartialEq, Eq)]
pub struct BuildingRange {
    pub from: BuildingNumber,
    pub to: BuildingNumber,
}

/// One item of the building list of a street.
#[derive(Clone, Debug, PartialEq, Eq)]
pub enum Building {
    /// A building without number (Bez Broj), with the free text that followed
    /// the marker, if any.
    Bb(Option<String>),
    Number(BuildingNumber),
    Range(BuildingRange),
}

/// A street with its buildings, and the settlement it was listed under.
#[derive(Clone, Debug, PartialEq, Eq)]
pub struct Address {
    pub settlement: Option<String>,
    pub street: String,
    pub buildings: Vec<Building>,
}

/// The addresses of one cell, in the order of the text.
#[derive(Clone, Debug, PartialEq, Eq)]
pub struct AddressRow {
    pub items: Vec<Address>,
}

pub struct NumberView {
    pub value: usize,
    pub extension: Option<Seq<char>>,
}

pub enum BuildingView {
    Bb(Option<Seq<char>>),
    Number(NumberView),
    Range(NumberView, NumberView),
}

pub struct AddressView {
    pub settlement: Option<Seq<char>>,
    pub street: Seq<char>,
    pub buildings: Seq<BuildingView>,
}

pub open spec fn text_view(o: Option<String>) -> Option<Seq<char>> {
    match o {
        Some(t) => Some(t@),
        None => None,
    }
}

impl View for BuildingNumber {
    type V = NumberView;

    open spec fn view(&self) -> NumberView {
        NumberView { value: self.value, extension: text_view(self.extension) }
    }
}

impl View for Building {
    type V = BuildingView;

    open spec fn view(&self) -> BuildingView {
        match self {
            Building::Bb(note) => BuildingView::Bb(text_view(*note)),
            Building::Number(n) => BuildingView::Number(n@),
            Building::Range(r) => BuildingView::Range(r.from@, r.to@),
        }
    }
}

pub open spec fn buildings_view(v: Seq<Building>) -> Seq<BuildingView> {
    v.map_values(|b: Building| b@)
}

impl View for Address {
    type V = AddressView;

    open spec fn view(&self) -> AddressView {
        AddressView {
            settlement: text_view(self.settlement),
            street: self.street@,
            buildings: buildings_view(self.buildings@),
        }
    }
}

pub open spec fn addresses_view(v: Seq<Address>) -> Seq<AddressView> {
    v.map_values(|a: Address| a@)
}

impl View for AddressRow {
    type V = Seq<AddressView>;

    open spec fn view(&self) -> Seq<AddressView> {
        addresses_view(self.items@)
    }
}

impl Address {
    /// An address outside any settlement.
    pub fn new(street: &str, buildings: Vec<Building>) -> (r: Address)
        ensures
            r.settlement is None,
            r.street@ == street@,
            r.buildings@ == buildings@,
    {
        Address { settlement: None, street: street.to_owned(), buildings }
    }

    /// An address listed under the settlement `settlement`.
    pub fn with_settlement(settlement: &str, street: &str, buildings: Vec<Building>) -> (r: Address)
        ensures
            r.settlement matches Some(t) && t@ == settlement@,
            r.street@ == street@,
            r.buildings@ == buildings@,
    {
        Address { settlement: Some(settlement.to_owned()), street: street.to_owned(), buildings }
    }
}

/// `a` as listed under the settlement `name`.
pub open spec fn in_settlement(a: AddressView, name: Seq<char>) -> AddressView {
    AddressView { settlement: Some(name), ..a }
}

impl Address {
    /// The addresses `items`, in order, each listed under the settlement `name`.
    pub fn add_settlement(name: &str, items: Vec<Address>) -> (r: Vec<Address>)
        ensures
            addresses_view(r@) == addresses_view(items@).map_values(
                |a: AddressView| in_settlement(a, name@),
            ),
    {
        let ghost all = items@;
        let mut items = items;
        let mut out: Vec<Address> = Vec::new();
        while items.len() > 0
            invariant
                all.len() == out@.len() + items@.len(),
                items@ == all.subrange(out@.len() as int, all.len() as int),
                addresses_view(out@) == addresses_view(all.subrange(0, out@.len() as int)).map_values(
                    |a: AddressView| in_settlement(a, name@),
                ),
            decreases items@.len(),
        {
            let ghost k: int = out@.len() as int;
            let a = items.remove(0);
            let ghost before = addresses_view(out@);
            out.push(Address { settlement: Some(name.to_owned()), ..a });
            assert(all.subrange(0, k + 1) == all.subrange(0, k as int).push(a));
            assert(addresses_view(all.subrange(0, k + 1)) == addresses_view(all.subrange(0, k as int)).push(a@));
            assert(addresses_view(out@) == before.push(in_settlement(a@, name@)));
            assert(items@ == all.subrange(k + 1, all.len() as int));
        }
        assert(all.subrange(0, out@.len() as int) == all);
        out
    }
}

impl AddressRow {
    /// The addresses of the row, in order.
    pub fn into_items(self) -> (r: Vec<Address>)
        ensures
            r@ == self.items@,
    {
        self.items
    }
}

/// Why a text is not an address cell.
#[derive(Clone, Debug, PartialEq, Eq)]
pub struct ParseError {
    /// The char index at which parsing could go no further.
    pub position: usize,
    pub message: String,
}

pub open spec fn digit_char(d: nat) -> char {
    if d == 0 {
        '0'
    } else if d == 1 {
        '1'
    } else if d == 2 {
        '2'
    } else if d == 3 {
        '3'
    } else if d == 4 {
        '4'
    } else if d == 5 {
        '5'
    } else if d == 6 {
        '6'
    } else if d == 7 {
        '7'
    } else if d == 8 {
        '8'
    } else {
        '9'
    }
}

/// `n` written in decimal, without leading zeros.
pub open spec fn decimal(n: nat) -> Seq<char>
    decreases n,
{
    if n < 10 {
        seq![digit_char(n)]
    } else {
        decimal(n / 10).push(digit_char(n % 10))
    }
}

fn push_decimal(out: &mut String, n: usize)
    ensures
        final(out)@ == old(out)@ + decimal(n as nat),
    decreases n,
{
    if n >= 10 {
        push_decimal(out, n / 10);
    }
    let d = n % 10;
    let c = if d == 0 {
        '0'
    } else if d == 1 {
        '1'
    } else if d == 2 {
        '2'
    } else if d == 3 {
        '3'
    } else if d == 4 {
        '4'
    } else if d == 5 {
        '5'
    } else if d == 6 {
        '6'
    } else if d == 7 {
        '7'
    } else if d == 8 {
        '8'
    } else {
        '9'
    };
    push_char(out, c);
}

/// A number as written: its value, then its extension.
pub open spec fn number_text(n: NumberView) -> Seq<char> {
    decimal(n.value as nat) + match n.extension {
        Some(e) => e,
        None => Seq::empty(),
    }
}

/// A building as written: `BB` with its note after a space, a number, or
/// two numbers with `-` between them.
pub open spec fn building_text(b: BuildingView) -> Seq<char> {
    match b {
        BuildingView::Bb(None) => seq!['B', 'B'],
        BuildingView::Bb(Some(note)) => seq!['B', 'B', ' '] + note,
        BuildingView::Number(n) => number_text(n),
        BuildingView::Range(from, to) => number_text(from) + seq!['-'] + number_text(to),
    }
}

/// The buildings as written, each followed by `,`.
pub open spec fn buildings_text(v: Seq<BuildingView>) -> Seq<char>
    decreases v.len(),
{
    if v.len() == 0 {
        Seq::empty()
    } else {
        buildings_text(v.drop_last()) + building_text(v.last()) + seq![',']
    }
}

/// An address as written: the street, `: `, and its buildings.
pub open spec fn address_text(a: AddressView) -> Seq<char> {
    a.street + seq![':', ' '] + buildings_text(a.buildings)
}

/// The addresses of a row as written, one per line.
pub open spec fn row_text(v: Seq<AddressView>) -> Seq<char>
    decreases v.len(),
{
    if v.len() == 0 {
        Seq::empty()
    } else {
        row_text(v.drop_last()) + address_text(v.last()) + seq!['\n']
    }
}

impl BuildingNumber {
    pub(crate) fn push_to(&self, out: &mut String)
        ensures
            final(out)@ == old(out)@ + number_text(self@),
    {
        push_decimal(out, self.value);
        match &self.extension {
            Some(e) => push_text(out, e.as_str()),
            None => {},
        }
    }

    /// The number as written, such as `36A/1`.
    pub fn to_text(&self) -> (r: String)
        ensures
            r@ == number_text(self@),
    {
        let mut out = String::new();
        self.push_to(&mut out);
        out
    }
}

impl BuildingRange {
    /// The range as written, such as `3-7b`.
    pub fn to_text(&self) -> (r: String)
        ensures
            r@ == building_text(Building::Range(*self)@),
    {
        let mut out = String::new();
        self.from.push_to(&mut out);
        push_char(&mut out, '-');
        self.to.push_to(&mut out);
        out
    }
}

impl Building {
    fn push_to(&self, out: &mut String)
        ensures
            final(out)@ == old(out)@ + building_text(self@),
    {
        match self {
            Building::Bb(note) => {
                push_char(out, 'B');
                push_char(out, 'B');
                match note {
                    Some(t) => {
                        push_char(out, ' ');
                        push_text(out, t.as_str());
                    },
                    None => {},
                }
            },
            Building::Number(n) => n.push_to(out),
            Building::Range(r) => {
                r.from.push_to(out);
                push_char(out, '-');
                r.to.push_to(out);
            },
        }
    }

    /// The building as written: `BB` (with its note), a number or a range.
    pub fn to_text(&self) -> (r: String)
        ensures
            r@ == building_text(self@),
    {
        let mut out = String::new();
        self.push_to(&mut out);
        out
    }
}

impl Address {
    fn push_to(&self, out: &mut String)
        ensures
            final(out)@ == old(out)@ + address_text(self@),
    {
        let ghost start = out@;
        push_text(out, self.street.as_str());
        push_char(out, ':');
        push_char(out, ' ');
        let ghost head = out@;
        assert(head == start + self.street@ + seq![':', ' ']);
        let mut i: usize = 0;
        while i < self.buildings.len()
            invariant
                i <= self.buildings@.len(),
                out@ == head + buildings_text(buildings_view(self.buildings@.subrange(0, i as int))),
            decreases self.buildings.len() - i,
        {
            self.buildings[i].push_to(out);
            push_char(out, ',');
            assert(buildings_view(self.buildings@.subrange(0, i + 1)).drop_last() == buildings_view(
                self.buildings@.subrange(0, i as int),
            ));
            i = i + 1;
        }
        assert(self.buildings@.subrange(0, i as int) == self.buildings@);
    }

    /// The address as written: `street: ` and each building followed by `,`.
    pub fn to_text(&self) -> (r: String)
        ensures
            r@ == address_text(self@),
    {
        let mut out = String::new();
        self.push_to(&mut out);
        out
    }
}

impl AddressRow {
    /// The addresses as written, one per line.
    pub fn to_text(&self) -> (r: String)
        ensures
            r@ == row_text(self@),
    {
        let mut out = String::new();
        let mut i: usize = 0;
        while i < self.items.len()
            invariant
                i <= self.items@.len(),
                out@ == row_text(addresses_view(self.items@.subrange(0, i as int))),
            decreases self.items.len() - i,
        {
            self.items[i].push_to(&mut out);
            push_char(&mut out, '\n');
            assert(addresses_view(self.items@.subrange(0, i + 1)).drop_last() == addresses_view(
                self.items@.subrange(0, i as int),
            ));
            i = i + 1;
        }
        assert(self.items@.subrange(0, i as int) == self.items@);
        out
    }
}

} // verus!
