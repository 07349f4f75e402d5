//! The grammar of address cells, and its parser.
//!
//! A cell is a list of street entries (`street: 1,3-7,BB`), some of them
//! grouped under a settlement heading (`naselje ripanj: street: 24, ...`).
//! The spec functions below state the grammar over the chars of the cell,
//! each from a start position to an optional value and end position; the
//! parser is proved to compute exactly these.
//!
//! Buildings without a number (Bez Broj) are written `BB`, maybe followed by
//! free text.
use crate::address::{
    addresses_view, buildings_view, Address, AddressRow, AddressView, Building, BuildingNumber,
    BuildingRange, BuildingView, NumberView, ParseError, in_settlement,
};
use crate::text::{chars_of, string_of, trimmed, trimmed_string};
use vstd::prelude::*;

verus! {

/// Kinds of chars that the grammar takes in runs.
#[derive(Clone, Copy)]
pub enum CharClass {
    Digit,
    Alpha,
    /// Blank: space or tab.
    Space,
    /// Space, tab, carriage return or line feed.
    MultiSpace,
    /// What may follow a `BB` marker: ASCII letters and digits, `-`, blanks.
    BbNote,
    NotColon,
}

pub open spec fn is_alpha(c: char) -> bool {
    ('a' <= c && c <= 'z') || ('A' <= c && c <= 'Z')
}

pub open spec fn is_digit(c: char) -> bool {
    '0' <= c && c <= '9'
}

pub open spec fn is_blank(c: char) -> bool {
    c == ' ' || c == '\t'
}

pub open spec fn in_class(k: CharClass, c: char) -> bool {
    match k {
        CharClass::Digit => is_digit(c),
        CharClass::Alpha => is_alpha(c),
        CharClass::Space => is_blank(c),
        CharClass::MultiSpace => is_blank(c) || c == '\r' || c == '\n',
        CharClass::BbNote => is_alpha(c) || is_digit(c) || is_blank(c) || c == '-',
        CharClass::NotColon => c != ':',
    }
}

fn class_has(k: CharClass, c: char) -> (r: bool)
    ensures
        r == in_class(k, c),
{
    match k {
        CharClass::Digit => '0' <= c && c <= '9',
        CharClass::Alpha => ('a' <= c && c <= 'z') || ('A' <= c && c <= 'Z'),
        CharClass::Space => c == ' ' || c == '\t',
        CharClass::MultiSpace => c == ' ' || c == '\t' || c == '\r' || c == '\n',
        CharClass::BbNote => ('a' <= c && c <= 'z') || ('A' <= c && c <= 'Z') || ('0' <= c && c
            <= '9') || c == ' ' || c == '\t' || c == '-',
        CharClass::NotColon => c != ':',
    }
}

/// The end of the longest run of chars of class `k` that starts at `p`.
pub open spec fn run_end(s: Seq<char>, p: int, k: CharClass) -> int
    decreases s.len() - p,
{
    if 0 <= p < s.len() && in_class(k, s[p]) {
        run_end(s, p + 1, k)
    } else {
        p
    }
}

pub proof fn run_end_bounds(s: Seq<char>, p: int, k: CharClass)
    requires
        0 <= p <= s.len(),
    ensures
        p <= run_end(s, p, k) <= s.len(),
        forall|i: int| p <= i < run_end(s, p, k) ==> #[trigger] in_class(k, s[i]),
    decreases s.len() - p,
{
    if p < s.len() && in_class(k, s[p]) {
        run_end_bounds(s, p + 1, k);
    }
}

pub(crate) fn skip_class(s: &Vec<char>, p: usize, k: CharClass) -> (r: usize)
    requires
        p <= s@.len(),
    ensures
        r == run_end(s@, p as int, k),
        p <= r <= s@.len(),
{
    let mut i: usize = p;
    while i < s.len() && class_has(k, s[i])
        invariant
            p <= i <= s@.len(),
            run_end(s@, i as int, k) == run_end(s@, p as int, k),
        decreases s@.len() - i,
    {
        i = i + 1;
    }
    i
}

/// `c` equals the lowercase ASCII letter `l` but for case.
pub open spec fn no_case_eq(c: char, l: char) -> bool {
    c == l || ('A' <= c && c <= 'Z' && (c as u32) + 32 == (l as u32))
}

fn no_case_eq_exec(c: char, l: char) -> (r: bool)
    ensures
        r == no_case_eq(c, l),
{
    c == l || ('A' <= c && c <= 'Z' && (c as u32) + 32 == (l as u32))
}

/// The keyword `w` (written in lowercase) stands at `p`, in any case.
pub open spec fn keyword_at(s: Seq<char>, p: int, w: Seq<char>) -> bool {
    &&& 0 <= p
    &&& p + w.len() <= s.len()
    &&& forall|i: int| 0 <= i < w.len() ==> #[trigger] no_case_eq(s[p + i], w[i])
}

fn keyword_exec(s: &Vec<char>, p: usize, w: &Vec<char>) -> (r: bool)
    ensures
        r == keyword_at(s@, p as int, w@),
{
    if w.len() > s.len() || p > s.len() - w.len() {
        return false;
    }
    let mut i: usize = 0;
    while i < w.len()
        invariant
            i <= w@.len(),
            p + w@.len() <= s@.len(),
            s@.len() <= usize::MAX,
            forall|j: int| 0 <= j < i ==> #[trigger] no_case_eq(s@[p + j], w@[j]),
        decreases w@.len() - i,
    {
        if !no_case_eq_exec(s[p + i], w[i]) {
            return false;
        }
        i = i + 1;
    }
    true
}

/// The settlement keyword.
pub open spec fn naselje() -> Seq<char> {
    seq!['n', 'a', 's', 'e', 'l', 'j', 'e']
}

fn naselje_exec() -> (r: Vec<char>)
    ensures
        r@ == naselje(),
{
    let r = vec!['n', 'a', 's', 'e', 'l', 'j', 'e'];
    assert(r@ == naselje());
    r
}

pub open spec fn digit_of(c: char) -> nat {
    ((c as u32) as int - ('0' as u32) as int) as nat
}

/// The number that the decimal digits `t` write.
pub open spec fn digits_value(t: Seq<char>) -> nat
    decreases t.len(),
{
    if t.len() == 0 {
        0
    } else {
        digits_value(t.drop_last()) * 10 + digit_of(t.last())
    }
}

/// The value of the digits from `p` to `d`; `None` where it does not fit a `usize`.
pub(crate) fn digits_exec(s: &Vec<char>, p: usize, d: usize) -> (r: Option<usize>)
    requires
        p <= d <= s@.len(),
        forall|i: int| p <= i < d ==> #[trigger] is_digit(s@[i]),
    ensures
        match r {
            Some(v) => v == digits_value(s@.subrange(p as int, d as int)),
            None => digits_value(s@.subrange(p as int, d as int)) > usize::MAX,
        },
{
    let mut v: usize = 0;
    let mut over = false;
    let mut i: usize = p;
    while i < d
        invariant
            p <= i <= d <= s@.len(),
            forall|j: int| p <= j < d ==> #[trigger] is_digit(s@[j]),
            over ==> digits_value(s@.subrange(p as int, i as int)) > usize::MAX,
            !over ==> v == digits_value(s@.subrange(p as int, i as int)),
        decreases d - i,
    {
        assert(is_digit(s@[i as int]));
        let c = s[i];
        let dg: usize = ((c as u32) - ('0' as u32)) as usize;
        let ghost prev = digits_value(s@.subrange(p as int, i as int));
        assert(s@.subrange(p as int, i + 1).drop_last() == s@.subrange(p as int, i as int));
        assert(digits_value(s@.subrange(p as int, i + 1)) == prev * 10 + dg);
        if !over {
            if v > (usize::MAX - dg) / 10 {
                over = true;
                assert(prev * 10 + dg > usize::MAX) by (nonlinear_arith)
                    requires
                        prev == v,
                        v > (usize::MAX - dg) / 10,
                        dg <= 9,
                ;
            } else {
                assert(v * 10 + dg <= usize::MAX) by (nonlinear_arith)
                    requires
                        v <= (usize::MAX - dg) / 10,
                        dg <= 9,
                ;
                v = v * 10 + dg;
            }
        } else {
            assert(prev * 10 + dg >= prev) by (nonlinear_arith);
        }
        i = i + 1;
    }
    if over {
        None
    } else {
        Some(v)
    }
}


/// Where the extension of a number ends, given the end `a` of its letters:
/// a `/` with at least one digit after it belongs to it.
pub open spec fn extension_end(s: Seq<char>, a: int) -> int {
    if 0 <= a < s.len() && s[a] == '/' && run_end(s, a + 1, CharClass::Digit) > a + 1 {
        run_end(s, a + 1, CharClass::Digit)
    } else {
        a
    }
}

/// A building number at `p`: digits, then an extension of letters and maybe
/// `/` with digits. The extension is `None` when it is empty.
pub open spec fn number_at(s: Seq<char>, p: int) -> Option<(NumberView, int)> {
    let d = run_end(s, p, CharClass::Digit);
    let v = digits_value(s.subrange(p, d));
    if d == p || v > usize::MAX {
        None
    } else {
        let e = extension_end(s, run_end(s, d, CharClass::Alpha));
        let extension = if e == d {
            None
        } else {
            Some(s.subrange(d, e))
        };
        Some((NumberView { value: v as usize, extension }, e))
    }
}

/// A range at `p`: two numbers with `-` between them.
pub open spec fn range_at(s: Seq<char>, p: int) -> Option<(BuildingView, int)> {
    match number_at(s, p) {
        Some((a, q)) => if 0 <= q < s.len() && s[q] == '-' {
            match number_at(s, q + 1) {
                Some((b, r)) => Some((BuildingView::Range(a, b), r)),
                None => None,
            }
        } else {
            None
        },
        None => None,
    }
}

/// A `BB` marker at `p`, in any case. Where a letter or digit follows it,
/// the longest run of letters, digits, `-` and blanks from there is its note.
pub open spec fn bb_at(s: Seq<char>, p: int) -> Option<(BuildingView, int)> {
    if keyword_at(s, p, seq!['b', 'b']) {
        let q = p + 2;
        if q < s.len() && (is_alpha(s[q]) || is_digit(s[q])) {
            let e = run_end(s, q, CharClass::BbNote);
            Some((BuildingView::Bb(Some(s.subrange(q, e))), e))
        } else {
            Some((BuildingView::Bb(None), q))
        }
    } else {
        None
    }
}

/// One building at `p`: a `BB` marker, else a range, else a number, tried in
/// this order.
pub open spec fn building_at(s: Seq<char>, p: int) -> Option<(BuildingView, int)> {
    match bb_at(s, p) {
        Some(x) => Some(x),
        None => match range_at(s, p) {
            Some(x) => Some(x),
            None => match number_at(s, p) {
                Some((n, q)) => Some((BuildingView::Number(n), q)),
                None => None,
            },
        },
    }
}

/// The buildings after the first one of a list, from `q`, added to `acc`:
/// each is a `,` and a building. Where the text after a `,` is no building,
/// the list ends before that `,`.
pub open spec fn list_rest(s: Seq<char>, q: int, acc: Seq<BuildingView>) -> (Seq<BuildingView>, int)
    decreases s.len() - q,
{
    if 0 <= q < s.len() && s[q] == ',' {
        match building_at(s, q + 1) {
            Some((b, r)) => if q < r <= s.len() {
                list_rest(s, r, acc.push(b))
            } else {
                (acc, q)
            },
            None => (acc, q),
        }
    } else {
        (acc, q)
    }
}

/// The building list at `p`: blank space, one building or more separated
/// by `,`, maybe a trailing `,`, and blank space.
pub open spec fn building_list_at(s: Seq<char>, p: int) -> Option<(Seq<BuildingView>, int)> {
    let a = run_end(s, p, CharClass::MultiSpace);
    match building_at(s, a) {
        None => None,
        Some((b, q)) => {
            let (items, e) = list_rest(s, q, seq![b]);
            let t = if 0 <= e < s.len() && s[e] == ',' {
                e + 1
            } else {
                e
            };
            Some((items, run_end(s, t, CharClass::MultiSpace)))
        },
    }
}

fn number_from(s: &Vec<char>, p: usize) -> (r: Option<(BuildingNumber, usize)>)
    requires
        p <= s@.len(),
    ensures
        match r {
            Some((n, q)) => number_at(s@, p as int) == Some((n@, q as int)) && p < q <= s@.len(),
            None => number_at(s@, p as int) is None,
        },
{
    let d = skip_class(s, p, CharClass::Digit);
    if d == p {
        return None;
    }
    proof {
        run_end_bounds(s@, p as int, CharClass::Digit);
        assert forall|i: int| p <= i < d implies #[trigger] is_digit(s@[i]) by {
            assert(in_class(CharClass::Digit, s@[i]));
        }
    }
    let value = match digits_exec(s, p, d) {
        Some(v) => v,
        None => {
            return None;
        },
    };
    let a = skip_class(s, d, CharClass::Alpha);
    let mut e = a;
    if a < s.len() && s[a] == '/' {
        let t = skip_class(s, a + 1, CharClass::Digit);
        if t > a + 1 {
            e = t;
        }
    }
    let extension = if e == d {
        None
    } else {
        Some(string_of(s, d, e))
    };
    let n = BuildingNumber { value, extension };
    Some((n, e))
}

fn range_from(s: &Vec<char>, p: usize) -> (r: Option<(BuildingRange, usize)>)
    requires
        p <= s@.len(),
    ensures
        match r {
            Some((g, q)) => range_at(s@, p as int) == Some((Building::Range(g)@, q as int)) && p < q
                <= s@.len(),
            None => range_at(s@, p as int) is None,
        },
{
    match number_from(s, p) {
        Some((from, q)) => {
            if q < s.len() && s[q] == '-' {
                match number_from(s, q + 1) {
                    Some((to, e)) => Some((BuildingRange { from, to }, e)),
                    None => None,
                }
            } else {
                None
            }
        },
        None => None,
    }
}

fn bb_from(s: &Vec<char>, p: usize) -> (r: Option<(Building, usize)>)
    requires
        p <= s@.len(),
    ensures
        match r {
            Some((b, q)) => bb_at(s@, p as int) == Some((b@, q as int)) && p < q <= s@.len(),
            None => bb_at(s@, p as int) is None,
        },
{
    let bb = vec!['b', 'b'];
    assert(bb@ == seq!['b', 'b']);
    if !keyword_exec(s, p, &bb) {
        return None;
    }
    let n = s.len();
    assert(p + 2 <= n);
    let q = p + 2;
    if q < s.len() && (class_has(CharClass::Alpha, s[q]) || class_has(CharClass::Digit, s[q])) {
        let e = skip_class(s, q, CharClass::BbNote);
        Some((Building::Bb(Some(string_of(s, q, e))), e))
    } else {
        Some((Building::Bb(None), q))
    }
}

fn building_from(s: &Vec<char>, p: usize) -> (r: Option<(Building, usize)>)
    requires
        p <= s@.len(),
    ensures
        match r {
            Some((b, q)) => building_at(s@, p as int) == Some((b@, q as int)) && p < q <= s@.len(),
            None => building_at(s@, p as int) is None,
        },
{
    match bb_from(s, p) {
        Some(x) => {
            return Some(x);
        },
        None => {},
    }
    match range_from(s, p) {
        Some((g, q)) => {
            return Some((Building::Range(g), q));
        },
        None => {},
    }
    match number_from(s, p) {
        Some((n, q)) => Some((Building::Number(n), q)),
        None => None,
    }
}

fn building_list_from(s: &Vec<char>, p: usize) -> (r: Option<(Vec<Building>, usize)>)
    requires
        p <= s@.len(),
    ensures
        match r {
            Some((v, q)) => building_list_at(s@, p as int) == Some((buildings_view(v@), q as int))
                && p < q <= s@.len(),
            None => building_list_at(s@, p as int) is None,
        },
{
    let a = skip_class(s, p, CharClass::MultiSpace);
    let (first, mut q) = match building_from(s, a) {
        Some(x) => x,
        None => {
            return None;
        },
    };
    let mut items: Vec<Building> = Vec::new();
    items.push(first);
    assert(buildings_view(items@) == seq![first@]);
    let ghost first_end = q;
    let ghost first_view = first@;
    let mut done = false;
    while !done && q < s.len() && s[q] == ','
        invariant
            done ==> list_rest(s@, q as int, buildings_view(items@)) == (buildings_view(items@), q as int),
            a < q <= s@.len(),
            building_at(s@, a as int) == Some((first_view, first_end as int)),
            list_rest(s@, q as int, buildings_view(items@)) == list_rest(
                s@,
                first_end as int,
                seq![first_view],
            ),
        decreases s@.len() - q + (if done {
            0int
        } else {
            1int
        }),
    {
        match building_from(s, q + 1) {
            Some((b, e)) => {
                let ghost old_items = items@;
                items.push(b);
                assert(buildings_view(items@) == buildings_view(old_items).push(b@));
                q = e;
            },
            None => {
                done = true;
            },
        }
    }
    let ghost e = q;
    assert(list_rest(s@, q as int, buildings_view(items@)) == (buildings_view(items@), e as int));
    if q < s.len() && s[q] == ',' {
        q = q + 1;
    }
    let t = skip_class(s, q, CharClass::MultiSpace);
    Some((items, t))
}


/// A street entry at `p`: the street name up to the next `:` (at least one
/// char, trimmed of white space), the `:`, and a building list.
pub open spec fn pair_at(s: Seq<char>, p: int) -> Option<(AddressView, int)> {
    let c = run_end(s, p, CharClass::NotColon);
    if c == p || c >= s.len() {
        None
    } else {
        match building_list_at(s, c + 1) {
            Some((buildings, q)) => Some(
                (AddressView { settlement: None, street: trimmed(s.subrange(p, c)), buildings }, q),
            ),
            None => None,
        }
    }
}

/// A street entry inside a settlement block: none where the settlement
/// keyword stands at `p`, which begins the next block.
pub open spec fn scoped_pair_at(s: Seq<char>, p: int) -> Option<(AddressView, int)> {
    if keyword_at(s, p, naselje()) {
        None
    } else {
        pair_at(s, p)
    }
}

/// The street entries of a settlement block from `q`, after those in `acc`.
pub open spec fn scoped_rest(s: Seq<char>, q: int, name: Seq<char>, acc: Seq<AddressView>) -> (
    Seq<AddressView>,
    int,
)
    decreases s.len() - q,
{
    match scoped_pair_at(s, q) {
        Some((a, r)) => if q < r <= s.len() {
            scoped_rest(s, r, name, acc.push(in_settlement(a, name)))
        } else {
            (acc, q)
        },
        None => (acc, q),
    }
}

/// A settlement block at `p`: the keyword `naselje` in any case, blanks, the
/// settlement's name up to the next `:`, the `:`, and one street entry or
/// more, each of them tagged with the name.
pub open spec fn settlement_at(s: Seq<char>, p: int) -> Option<(Seq<AddressView>, int)> {
    if !keyword_at(s, p, naselje()) {
        None
    } else {
        let w = run_end(s, p + 7, CharClass::Space);
        let c = run_end(s, w, CharClass::NotColon);
        if w == p + 7 || c == w || c >= s.len() {
            None
        } else {
            let name = s.subrange(w, c);
            match scoped_pair_at(s, c + 1) {
                Some((a, r)) => Some(scoped_rest(s, r, name, seq![in_settlement(a, name)])),
                None => None,
            }
        }
    }
}

/// The addresses of one part of a cell at `p`: a settlement block, else a
/// single street entry.
pub open spec fn kind_at(s: Seq<char>, p: int) -> Option<(Seq<AddressView>, int)> {
    match settlement_at(s, p) {
        Some(x) => Some(x),
        None => match pair_at(s, p) {
            Some((a, q)) => Some((seq![a], q)),
            None => None,
        },
    }
}

/// The parts of a cell from `q`, after the addresses in `acc`; it ends where
/// no further part parses.
pub open spec fn kinds_rest(s: Seq<char>, q: int, acc: Seq<AddressView>) -> (Seq<AddressView>, int)
    decreases s.len() - q,
{
    match kind_at(s, q) {
        Some((v, r)) => if q < r <= s.len() {
            kinds_rest(s, r, acc + v)
        } else {
            (acc, q)
        },
        None => (acc, q),
    }
}

/// The addresses of the parts that follow one another from the start of
/// `s`, and where they end.
pub open spec fn row_parts(s: Seq<char>) -> Option<(Seq<AddressView>, int)> {
    match kind_at(s, 0) {
        Some((v, r)) => Some(kinds_rest(s, r, v)),
        None => None,
    }
}

/// Where parsing a whole cell stops: after the last part that parses.
pub open spec fn row_stop(s: Seq<char>) -> int {
    match row_parts(s) {
        Some((_, e)) => e,
        None => 0,
    }
}

/// The addresses of the cell `s`: one part or more that take all of `s`;
/// `None` where some text is left after the last part that parses.
pub open spec fn row_spec(s: Seq<char>) -> Option<Seq<AddressView>> {
    match row_parts(s) {
        Some((items, e)) => if e == s.len() {
            Some(items)
        } else {
            None
        },
        None => None,
    }
}

fn pair_from(s: &Vec<char>, p: usize) -> (r: Option<(Address, usize)>)
    requires
        p <= s@.len(),
    ensures
        match r {
            Some((a, q)) => pair_at(s@, p as int) == Some((a@, q as int)) && p < q <= s@.len(),
            None => pair_at(s@, p as int) is None,
        },
{
    let c = skip_class(s, p, CharClass::NotColon);
    if c == p || c >= s.len() {
        return None;
    }
    match building_list_from(s, c + 1) {
        Some((buildings, q)) => {
            let street = trimmed_string(s, p, c);
            Some((Address { settlement: None, street, buildings }, q))
        },
        None => None,
    }
}

fn scoped_pair_from(s: &Vec<char>, p: usize, keyword: &Vec<char>) -> (r: Option<(Address, usize)>)
    requires
        p <= s@.len(),
        keyword@ == naselje(),
    ensures
        match r {
            Some((a, q)) => scoped_pair_at(s@, p as int) == Some((a@, q as int)) && p < q
                <= s@.len(),
            None => scoped_pair_at(s@, p as int) is None,
        },
{
    if keyword_exec(s, p, keyword) {
        None
    } else {
        pair_from(s, p)
    }
}

fn settlement_from(s: &Vec<char>, p: usize) -> (r: Option<(Vec<Address>, usize)>)
    requires
        p <= s@.len(),
    ensures
        match r {
            Some((v, q)) => settlement_at(s@, p as int) == Some((addresses_view(v@), q as int)) && p
                < q <= s@.len(),
            None => settlement_at(s@, p as int) is None,
        },
{
    let keyword = naselje_exec();
    if !keyword_exec(s, p, &keyword) {
        return None;
    }
    let n = s.len();
    assert(p + 7 <= n);
    let w = skip_class(s, p + 7, CharClass::Space);
    let c = skip_class(s, w, CharClass::NotColon);
    if w == p + 7 || c == w || c >= s.len() {
        return None;
    }
    let ghost name = s@.subrange(w as int, c as int);
    let (first, mut q) = match scoped_pair_from(s, c + 1, &keyword) {
        Some(x) => x,
        None => {
            return None;
        },
    };
    let ghost first_view = first@;
    let ghost first_end = q;
    let mut items: Vec<Address> = Vec::new();
    items.push(Address { settlement: Some(string_of(s, w, c)), ..first });
    assert(addresses_view(items@) == seq![in_settlement(first_view, name)]);
    let mut done = false;
    while !done
        invariant
            w <= c < q <= s@.len(),
            name == s@.subrange(w as int, c as int),
            keyword@ == naselje(),
            scoped_pair_at(s@, c + 1) == Some((first_view, first_end as int)),
            done ==> scoped_rest(s@, q as int, name, addresses_view(items@)) == (
                addresses_view(items@),
                q as int,
            ),
            scoped_rest(s@, q as int, name, addresses_view(items@)) == scoped_rest(
                s@,
                first_end as int,
                name,
                seq![in_settlement(first_view, name)],
            ),
        decreases s@.len() - q + (if done {
            0int
        } else {
            1int
        }),
    {
        match scoped_pair_from(s, q, &keyword) {
            Some((a, e)) => {
                let ghost old_items = items@;
                let ghost a_view = a@;
                items.push(Address { settlement: Some(string_of(s, w, c)), ..a });
                assert(addresses_view(items@) == addresses_view(old_items).push(
                    in_settlement(a_view, name),
                ));
                assert(scoped_rest(s@, q as int, name, addresses_view(old_items)) == scoped_rest(
                    s@,
                    e as int,
                    name,
                    addresses_view(items@),
                ));
                q = e;
            },
            None => {
                assert(scoped_rest(s@, q as int, name, addresses_view(items@)) == (
                    addresses_view(items@),
                    q as int,
                ));
                done = true;
            },
        }
    }
    Some((items, q))
}

fn kind_from(s: &Vec<char>, p: usize) -> (r: Option<(Vec<Address>, usize)>)
    requires
        p <= s@.len(),
    ensures
        match r {
            Some((v, q)) => kind_at(s@, p as int) == Some((addresses_view(v@), q as int)) && p < q
                <= s@.len(),
            None => kind_at(s@, p as int) is None,
        },
{
    match settlement_from(s, p) {
        Some(x) => {
            return Some(x);
        },
        None => {},
    }
    match pair_from(s, p) {
        Some((a, q)) => {
            let ghost a_view = a@;
            let mut v: Vec<Address> = Vec::new();
            v.push(a);
            assert(addresses_view(v@) == seq![a_view]);
            Some((v, q))
        },
        None => None,
    }
}

/// Parses as many parts as follow one another from the start of `s`.
fn kinds_from(s: &Vec<char>) -> (r: Option<(Vec<Address>, usize)>)
    ensures
        match r {
            Some((v, q)) => row_parts(s@) == Some((addresses_view(v@), q as int)) && q <= s@.len(),
            None => row_parts(s@) is None,
        },
{
    let (mut items, mut q) = match kind_from(s, 0) {
        Some(x) => x,
        None => {
            return None;
        },
    };
    let ghost first_view = addresses_view(items@);
    let ghost first_end = q;
    let mut done = false;
    while !done
        invariant
            0 < q <= s@.len(),
            kind_at(s@, 0) == Some((first_view, first_end as int)),
            done ==> kinds_rest(s@, q as int, addresses_view(items@)) == (
                addresses_view(items@),
                q as int,
            ),
            kinds_rest(s@, q as int, addresses_view(items@)) == kinds_rest(
                s@,
                first_end as int,
                first_view,
            ),
        decreases s@.len() - q + (if done {
            0int
        } else {
            1int
        }),
    {
        match kind_from(s, q) {
            Some((mut more, e)) => {
                let ghost old_items = items@;
                let ghost more_items = more@;
                items.append(&mut more);
                assert(addresses_view(items@) == addresses_view(old_items) + addresses_view(
                    more_items,
                ));
                q = e;
            },
            None => {
                done = true;
            },
        }
    }
    Some((items, q))
}


/// `res` is the value `v` and an end position from which `rest` is what is
/// left of `s`.
pub open spec fn parsed_to<T>(res: Option<(T, int)>, s: Seq<char>, v: T, rest: Seq<char>) -> bool {
    &&& rest.len() <= s.len()
    &&& res == Some((v, s.len() - rest.len()))
    &&& rest == s.subrange(s.len() - rest.len(), s.len() as int)
}

fn rest_of(s: &Vec<char>, q: usize) -> (r: String)
    requires
        q <= s@.len(),
    ensures
        r@ == s@.subrange(q as int, s@.len() as int),
{
    string_of(s, q, s.len())
}

fn fail_at(position: usize, message: &str) -> (e: ParseError)
    ensures
        e.position == position,
        e.message@ == message@,
{
    ParseError { position, message: message.to_owned() }
}

/// Parses a building number at the start of `input`; returns what is left
/// of `input` and the number.
pub fn address_number(input: &str) -> (r: Result<(String, BuildingNumber), ParseError>)
    ensures
        match r {
            Ok((rest, n)) => parsed_to(number_at(input@, 0), input@, n@, rest@),
            Err(e) => number_at(input@, 0) is None && e.position == 0,
        },
{
    let s = chars_of(input);
    match number_from(&s, 0) {
        Some((n, q)) => Ok((rest_of(&s, q), n)),
        None => Err(fail_at(0, "expected a building number")),
    }
}

/// Parses a range of building numbers at the start of `input`.
pub fn address_number_range(input: &str) -> (r: Result<(String, BuildingRange), ParseError>)
    ensures
        match r {
            Ok((rest, g)) => parsed_to(range_at(input@, 0), input@, Building::Range(g)@, rest@),
            Err(e) => range_at(input@, 0) is None && e.position == 0,
        },
{
    let s = chars_of(input);
    match range_from(&s, 0) {
        Some((g, q)) => Ok((rest_of(&s, q), g)),
        None => Err(fail_at(0, "expected a range of building numbers")),
    }
}

/// Parses a `BB` marker and its note at the start of `input`.
pub fn bez_broj(input: &str) -> (r: Result<(String, Building), ParseError>)
    ensures
        match r {
            Ok((rest, b)) => parsed_to(bb_at(input@, 0), input@, b@, rest@),
            Err(e) => bb_at(input@, 0) is None && e.position == 0,
        },
{
    let s = chars_of(input);
    match bb_from(&s, 0) {
        Some((b, q)) => Ok((rest_of(&s, q), b)),
        None => Err(fail_at(0, "expected a BB marker")),
    }
}

/// Parses one building (a `BB` marker, a range or a number) at the start of `input`.
pub fn broj(input: &str) -> (r: Result<(String, Building), ParseError>)
    ensures
        match r {
            Ok((rest, b)) => parsed_to(building_at(input@, 0), input@, b@, rest@),
            Err(e) => building_at(input@, 0) is None && e.position == 0,
        },
{
    let s = chars_of(input);
    match building_from(&s, 0) {
        Some((b, q)) => Ok((rest_of(&s, q), b)),
        None => Err(fail_at(0, "expected a building number, range, or BB marker")),
    }
}

/// Parses a building list at the start of `input`.
pub fn broj_list(input: &str) -> (r: Result<(String, Vec<Building>), ParseError>)
    ensures
        match r {
            Ok((rest, v)) => parsed_to(building_list_at(input@, 0), input@, buildings_view(v@), rest@),
            Err(e) => building_list_at(input@, 0) is None && e.position == 0,
        },
{
    let s = chars_of(input);
    match building_list_from(&s, 0) {
        Some((v, q)) => Ok((rest_of(&s, q), v)),
        None => Err(fail_at(0, "expected a list of building numbers, ranges, or BB markers")),
    }
}

/// Parses a street entry at the start of `input`.
pub fn address_number_pair(input: &str) -> (r: Result<(String, Address), ParseError>)
    ensures
        match r {
            Ok((rest, a)) => parsed_to(pair_at(input@, 0), input@, a@, rest@),
            Err(e) => pair_at(input@, 0) is None && e.position == 0,
        },
{
    let s = chars_of(input);
    match pair_from(&s, 0) {
        Some((a, q)) => Ok((rest_of(&s, q), a)),
        None => Err(fail_at(0, "expected a street name, ':' and building numbers")),
    }
}

/// Parses a settlement block at the start of `input`.
pub fn settlement(input: &str) -> (r: Result<(String, Vec<Address>), ParseError>)
    ensures
        match r {
            Ok((rest, v)) => parsed_to(settlement_at(input@, 0), input@, addresses_view(v@), rest@),
            Err(e) => settlement_at(input@, 0) is None && e.position == 0,
        },
{
    let s = chars_of(input);
    match settlement_from(&s, 0) {
        Some((v, q)) => Ok((rest_of(&s, q), v)),
        None => Err(fail_at(0, "expected 'naselje', a settlement name, ':' and street entries")),
    }
}

/// Parses a whole address cell. It fails unless all of `input` is taken;
/// the error's position is where parsing stopped.
pub fn address_row(input: &str) -> (r: Result<Vec<Address>, ParseError>)
    ensures
        match r {
            Ok(v) => row_spec(input@) == Some(addresses_view(v@)),
            Err(e) => row_spec(input@) is None && e.position == row_stop(input@),
        },
{
    let s = chars_of(input);
    match kinds_from(&s) {
        Some((v, q)) => {
            if q == s.len() {
                Ok(v)
            } else {
                Err(fail_at(q, "unexpected text after the last address"))
            }
        },
        None => Err(fail_at(0, "expected a street entry or a settlement block")),
    }
}

impl AddressRow {
    /// Parses a whole address cell into its addresses, in the order of the text.
    pub fn parse(input: &str) -> (r: Result<AddressRow, ParseError>)
        ensures
            match r {
                Ok(row) => row_spec(input@) == Some(row@),
                Err(e) => row_spec(input@) is None && e.position == row_stop(input@),
            },
    {
        match address_row(input) {
            Ok(items) => Ok(AddressRow { items }),
            Err(e) => Err(e),
        }
    }
}

/// A cell parses only when the parts that parse take all of it: text left
/// after the last of them fails the whole cell, and where it parses,
/// parsing stopped at its end.
pub proof fn leftover_text_fails(s: Seq<char>)
    ensures
        row_stop(s) < s.len() ==> row_spec(s) is None,
        row_spec(s) is Some ==> row_stop(s) == s.len(),
{
}

/// Runs of any class but `NotColon` end at a `,`.
proof fn run_end_before_comma(t: Seq<char>, p: int, k: CharClass)
    requires
        0 <= p <= t.len(),
        !(k is NotColon),
    ensures
        run_end(t.push(','), p, k) == run_end(t, p, k),
    decreases t.len() - p,
{
    let s = t.push(',');
    if p < t.len() {
        assert(s[p] == t[p]);
        if in_class(k, t[p]) {
            run_end_before_comma(t, p + 1, k);
        }
    } else {
        assert(s[p] == ',');
    }
}

proof fn number_before_comma(t: Seq<char>, p: int)
    requires
        0 <= p <= t.len(),
    ensures
        number_at(t.push(','), p) == number_at(t, p),
{
    let s = t.push(',');
    run_end_before_comma(t, p, CharClass::Digit);
    run_end_bounds(t, p, CharClass::Digit);
    let d = run_end(t, p, CharClass::Digit);
    assert(s.subrange(p, d) == t.subrange(p, d));
    run_end_before_comma(t, d, CharClass::Alpha);
    run_end_bounds(t, d, CharClass::Alpha);
    let a = run_end(t, d, CharClass::Alpha);
    if a < t.len() {
        assert(s[a] == t[a]);
        run_end_before_comma(t, a + 1, CharClass::Digit);
        run_end_bounds(t, a + 1, CharClass::Digit);
    } else {
        assert(s[a] == ',');
    }
    let e = extension_end(t, a);
    assert(extension_end(s, a) == e);
    assert(s.subrange(d, e) == t.subrange(d, e));
}

proof fn building_before_comma(t: Seq<char>, p: int)
    requires
        0 <= p <= t.len(),
    ensures
        building_at(t.push(','), p) == building_at(t, p),
        building_at(t, p) matches Some((_, q)) ==> p < q <= t.len(),
{
    let s = t.push(',');
    number_before_comma(t, p);
    run_end_bounds(t, p, CharClass::Digit);
    run_end_bounds(t, run_end(t, p, CharClass::Digit), CharClass::Alpha);
    let a = run_end(t, run_end(t, p, CharClass::Digit), CharClass::Alpha);
    if a + 1 <= t.len() {
        run_end_bounds(t, a + 1, CharClass::Digit);
    }
    // the range
    match number_at(t, p) {
        Some((_, q)) => {
            if q < t.len() {
                assert(s[q] == t[q]);
                number_before_comma(t, q + 1);
                run_end_bounds(t, q + 1, CharClass::Digit);
                let a2 = run_end(t, run_end(t, q + 1, CharClass::Digit), CharClass::Alpha);
                run_end_bounds(t, run_end(t, q + 1, CharClass::Digit), CharClass::Alpha);
                if a2 + 1 <= t.len() {
                    run_end_bounds(t, a2 + 1, CharClass::Digit);
                }
            } else {
                assert(s[q] == ',');
            }
        },
        None => {},
    }
    assert(range_at(s, p) == range_at(t, p));
    // the BB marker
    let w = seq!['b', 'b'];
    if p + 2 == t.len() + 1 {
        assert(s[p + 1] == ',');
        assert(!no_case_eq(s[p + 1], w[1]));
        assert(!keyword_at(s, p, w));
    } else if p + 2 <= t.len() {
        assert(s[p] == t[p] && s[p + 1] == t[p + 1]);
        assert(keyword_at(s, p, w) == keyword_at(t, p, w));
    }
    let q = p + 2;
    if q < t.len() {
        assert(s[q] == t[q]);
        run_end_before_comma(t, q, CharClass::BbNote);
        run_end_bounds(t, q, CharClass::BbNote);
        let e = run_end(t, q, CharClass::BbNote);
        assert(s.subrange(q, e) == t.subrange(q, e));
    } else if q == t.len() {
        assert(s[q] == ',');
    }
    assert(bb_at(s, p) == bb_at(t, p));
}

proof fn list_rest_before_comma(t: Seq<char>, q: int, acc: Seq<BuildingView>)
    requires
        0 <= q <= t.len(),
    ensures
        list_rest(t.push(','), q, acc) == list_rest(t, q, acc),
        q <= list_rest(t, q, acc).1 <= t.len(),
        list_rest(t, q, acc).0.len() >= acc.len(),
    decreases t.len() - q,
{
    let s = t.push(',');
    if q < t.len() {
        assert(s[q] == t[q]);
        if t[q] == ',' {
            building_before_comma(t, q + 1);
            match building_at(t, q + 1) {
                Some((b, r)) => {
                    list_rest_before_comma(t, r, acc.push(b));
                },
                None => {},
            }
        }
    } else {
        assert(s[q] == ',');
        assert(run_end(s, q + 1, CharClass::Digit) == q + 1);
        assert(!keyword_at(s, q + 1, seq!['b', 'b']));
        assert(building_at(s, q + 1) is None);
    }
}

/// A comma after the last building of a list changes nothing: where a
/// list that ends with a building (not with `,` or white space) takes all
/// of `t`, the same list with a `,` after it takes all of that text too, with
/// the same buildings.
pub proof fn trailing_comma_changes_nothing(t: Seq<char>)
    requires
        t.len() > 0,
        t.last() != ',',
        !in_class(CharClass::MultiSpace, t.last()),
        building_list_at(t, 0) matches Some((_, e)) && e == t.len(),
    ensures
        building_list_at(t.push(','), 0) matches Some((v, e)) && e == t.len() + 1 && Some(v)
            == (match building_list_at(t, 0) {
            Some((w, _)) => Some(w),
            None => None,
        }),
{
    let s = t.push(',');
    let a = run_end(t, 0, CharClass::MultiSpace);
    run_end_before_comma(t, 0, CharClass::MultiSpace);
    run_end_bounds(t, 0, CharClass::MultiSpace);
    building_before_comma(t, a);
    let (b, q) = building_at(t, a)->0;
    list_rest_before_comma(t, q, seq![b]);
    let (items, e) = list_rest(t, q, seq![b]);
    // the list of `t` ends at its end, since `t` ends with neither `,` nor white space
    if e < t.len() {
        let t2 = if t[e] == ',' {
            e + 1
        } else {
            e
        };
        run_end_bounds(t, t2, CharClass::MultiSpace);
        assert(run_end(t, t2, CharClass::MultiSpace) == t.len());
        if t2 < t.len() {
            assert(in_class(CharClass::MultiSpace, t[t.len() - 1]));
        }
        assert(false);
    }
    assert(s[e] == ',');
    assert(run_end(s, e + 1, CharClass::MultiSpace) == e + 1);
}

/// The `BB` marker at `p`, char by char.
proof fn bb_marker_at(s: Seq<char>, p: int)
    ensures
        keyword_at(s, p, seq!['b', 'b']) == (0 <= p && p + 2 <= s.len() && no_case_eq(s[p], 'b')
            && no_case_eq(s[p + 1], 'b')),
{
    let kw = seq!['b', 'b'];
    if 0 <= p && p + 2 <= s.len() && no_case_eq(s[p], 'b') && no_case_eq(s[p + 1], 'b') {
        assert forall|i: int| 0 <= i < kw.len() implies #[trigger] no_case_eq(s[p + i], kw[i]) by {
            if i == 0 {
            } else {
                assert(i == 1);
            }
        }
    }
    if keyword_at(s, p, kw) {
        assert(no_case_eq(s[p + 0], kw[0]));
        assert(no_case_eq(s[p + 1], kw[1]));
    }
}

/// `r` with its end position moved by `o`.
pub open spec fn shift_by<T>(r: Option<(T, int)>, o: int) -> Option<(T, int)> {
    match r {
        Some((v, q)) => Some((v, q + o)),
        None => None,
    }
}

/// The buildings of the list at the start of `t`; empty where there is none.
pub open spec fn list_items(t: Seq<char>) -> Seq<BuildingView> {
    match building_list_at(t, 0) {
        Some((v, _)) => v,
        None => Seq::empty(),
    }
}

proof fn run_end_after_prefix(w: Seq<char>, t: Seq<char>, p: int, k: CharClass)
    requires
        0 <= p <= t.len(),
    ensures
        run_end(w + t, w.len() + p, k) == w.len() + run_end(t, p, k),
    decreases t.len() - p,
{
    let s = w + t;
    if p < t.len() {
        assert(s[w.len() + p] == t[p]);
        if in_class(k, t[p]) {
            run_end_after_prefix(w, t, p + 1, k);
        }
    }
}

proof fn number_after_prefix(w: Seq<char>, t: Seq<char>, p: int)
    requires
        0 <= p <= t.len(),
    ensures
        number_at(w + t, w.len() + p) == shift_by(number_at(t, p), w.len() as int),
{
    let s = w + t;
    let o = w.len() as int;
    run_end_after_prefix(w, t, p, CharClass::Digit);
    run_end_bounds(t, p, CharClass::Digit);
    let d = run_end(t, p, CharClass::Digit);
    assert(s.subrange(o + p, o + d) == t.subrange(p, d));
    run_end_after_prefix(w, t, d, CharClass::Alpha);
    run_end_bounds(t, d, CharClass::Alpha);
    let a = run_end(t, d, CharClass::Alpha);
    if a < t.len() {
        assert(s[o + a] == t[a]);
        run_end_after_prefix(w, t, a + 1, CharClass::Digit);
        run_end_bounds(t, a + 1, CharClass::Digit);
    }
    let e = extension_end(t, a);
    assert(extension_end(s, o + a) == o + e);
    assert(s.subrange(o + d, o + e) == t.subrange(d, e));
}

proof fn building_after_prefix(w: Seq<char>, t: Seq<char>, p: int)
    requires
        0 <= p <= t.len(),
    ensures
        building_at(w + t, w.len() + p) == shift_by(building_at(t, p), w.len() as int),
{
    let s = w + t;
    let o = w.len() as int;
    number_after_prefix(w, t, p);
    run_end_bounds(t, p, CharClass::Digit);
    run_end_bounds(t, run_end(t, p, CharClass::Digit), CharClass::Alpha);
    let a = run_end(t, run_end(t, p, CharClass::Digit), CharClass::Alpha);
    if a + 1 <= t.len() {
        run_end_bounds(t, a + 1, CharClass::Digit);
    }
    match number_at(t, p) {
        Some((_, q)) => {
            if q < t.len() {
                assert(s[o + q] == t[q]);
                number_after_prefix(w, t, q + 1);
            }
        },
        None => {},
    }
    assert(range_at(s, o + p) == shift_by(range_at(t, p), o));
    let kw = seq!['b', 'b'];
    bb_marker_at(s, o + p);
    bb_marker_at(t, p);
    if p + 2 <= t.len() {
        assert(s[o + p] == t[p] && s[o + p + 1] == t[p + 1]);
    }
    assert(keyword_at(s, o + p, kw) == keyword_at(t, p, kw));
    let q = p + 2;
    if q < t.len() {
        assert(s[o + q] == t[q]);
        run_end_after_prefix(w, t, q, CharClass::BbNote);
        run_end_bounds(t, q, CharClass::BbNote);
        let e = run_end(t, q, CharClass::BbNote);
        assert(s.subrange(o + q, o + e) == t.subrange(q, e));
    }
    assert(bb_at(s, o + p) == shift_by(bb_at(t, p), o));
}

proof fn list_rest_after_prefix(w: Seq<char>, t: Seq<char>, q: int, acc: Seq<BuildingView>)
    requires
        0 <= q <= t.len(),
    ensures
        list_rest(w + t, w.len() + q, acc) == (
            list_rest(t, q, acc).0,
            w.len() + list_rest(t, q, acc).1,
        ),
    decreases t.len() - q,
{
    let s = w + t;
    if q < t.len() {
        assert(s[w.len() + q] == t[q]);
        if t[q] == ',' {
            building_after_prefix(w, t, q + 1);
            building_before_comma(t, q + 1);
            match building_at(t, q + 1) {
                Some((b, r)) => {
                    list_rest_after_prefix(w, t, r, acc.push(b));
                },
                None => {},
            }
        }
    }
}

proof fn run_end_through_space(w: Seq<char>, t: Seq<char>, i: int)
    requires
        0 <= i <= w.len(),
        forall|j: int| 0 <= j < w.len() ==> #[trigger] in_class(CharClass::MultiSpace, w[j]),
    ensures
        run_end(w + t, i, CharClass::MultiSpace) == run_end(w + t, w.len() as int, CharClass::MultiSpace),
    decreases w.len() - i,
{
    if i < w.len() {
        assert((w + t)[i] == w[i]);
        assert(in_class(CharClass::MultiSpace, w[i]));
        run_end_through_space(w, t, i + 1);
    }
}

/// Blank space before a building list changes nothing but the positions.
proof fn building_list_after_space(w: Seq<char>, t: Seq<char>)
    requires
        forall|j: int| 0 <= j < w.len() ==> #[trigger] in_class(CharClass::MultiSpace, w[j]),
    ensures
        building_list_at(w + t, 0) == shift_by(building_list_at(t, 0), w.len() as int),
{
    let s = w + t;
    let o = w.len() as int;
    run_end_through_space(w, t, 0);
    run_end_after_prefix(w, t, 0, CharClass::MultiSpace);
    run_end_bounds(t, 0, CharClass::MultiSpace);
    let a = run_end(t, 0, CharClass::MultiSpace);
    building_after_prefix(w, t, a);
    building_before_comma(t, a);
    match building_at(t, a) {
        Some((b, q)) => {
            list_rest_after_prefix(w, t, q, seq![b]);
            list_rest_before_comma(t, q, seq![b]);
            let e = list_rest(t, q, seq![b]).1;
            if e < t.len() {
                assert(s[o + e] == t[e]);
            }
            let t2 = if 0 <= e < t.len() && t[e] == ',' {
                e + 1
            } else {
                e
            };
            run_end_after_prefix(w, t, t2, CharClass::MultiSpace);
        },
        None => {},
    }
}

proof fn run_end_before_space(t: Seq<char>, u: Seq<char>, p: int, k: CharClass)
    requires
        0 <= p <= t.len(),
        run_end(t, p, k) < t.len() || u.len() == 0 || !in_class(k, u[0]),
    ensures
        run_end(t + u, p, k) == run_end(t, p, k),
    decreases t.len() - p,
{
    let s = t + u;
    if p < t.len() {
        assert(s[p] == t[p]);
        if in_class(k, t[p]) {
            run_end_before_space(t, u, p + 1, k);
        }
    } else if u.len() > 0 {
        assert(s[p] == u[0]);
    }
}

proof fn run_end_over_space(t: Seq<char>, u: Seq<char>, i: int)
    requires
        t.len() <= i <= t.len() + u.len(),
        forall|j: int| 0 <= j < u.len() ==> #[trigger] in_class(CharClass::MultiSpace, u[j]),
    ensures
        run_end(t + u, i, CharClass::MultiSpace) == t.len() + u.len(),
    decreases t.len() + u.len() - i,
{
    if i < t.len() + u.len() {
        assert((t + u)[i] == u[i - t.len()]);
        assert(in_class(CharClass::MultiSpace, u[i - t.len()]));
        run_end_over_space(t, u, i + 1);
    }
}

proof fn number_before_space(t: Seq<char>, u: Seq<char>, p: int)
    requires
        0 <= p <= t.len(),
        u.len() > 0 ==> in_class(CharClass::MultiSpace, u[0]),
    ensures
        number_at(t + u, p) == number_at(t, p),
{
    let s = t + u;
    run_end_before_space(t, u, p, CharClass::Digit);
    run_end_bounds(t, p, CharClass::Digit);
    let d = run_end(t, p, CharClass::Digit);
    assert(s.subrange(p, d) == t.subrange(p, d));
    run_end_before_space(t, u, d, CharClass::Alpha);
    run_end_bounds(t, d, CharClass::Alpha);
    let a = run_end(t, d, CharClass::Alpha);
    if a < t.len() {
        assert(s[a] == t[a]);
        run_end_before_space(t, u, a + 1, CharClass::Digit);
        run_end_bounds(t, a + 1, CharClass::Digit);
    } else if u.len() > 0 {
        assert(s[a] == u[0]);
    }
    let e = extension_end(t, a);
    assert(extension_end(s, a) == e);
    assert(s.subrange(d, e) == t.subrange(d, e));
}

proof fn building_before_space(t: Seq<char>, u: Seq<char>, p: int)
    requires
        0 <= p <= t.len(),
        u.len() > 0 ==> in_class(CharClass::MultiSpace, u[0]),
        !(building_at(t, p) matches Some((BuildingView::Bb(Some(_)), q)) && q == t.len()),
    ensures
        building_at(t + u, p) == building_at(t, p),
{
    let s = t + u;
    number_before_space(t, u, p);
    match number_at(t, p) {
        Some((_, q)) => {
            run_end_bounds(t, p, CharClass::Digit);
            run_end_bounds(t, run_end(t, p, CharClass::Digit), CharClass::Alpha);
            let a = run_end(t, run_end(t, p, CharClass::Digit), CharClass::Alpha);
            if a + 1 <= t.len() {
                run_end_bounds(t, a + 1, CharClass::Digit);
            }
            if q < t.len() {
                assert(s[q] == t[q]);
                number_before_space(t, u, q + 1);
            } else if u.len() > 0 {
                assert(s[q] == u[0]);
            }
        },
        None => {},
    }
    assert(range_at(s, p) == range_at(t, p));
    let kw = seq!['b', 'b'];
    bb_marker_at(s, p);
    bb_marker_at(t, p);
    if p + 2 <= t.len() {
        assert(s[p] == t[p] && s[p + 1] == t[p + 1]);
    } else if p + 2 == t.len() + 1 && u.len() > 0 {
        assert(s[p + 1] == u[0]);
        assert(!no_case_eq(s[p + 1], 'b'));
    }
    assert(keyword_at(s, p, kw) == keyword_at(t, p, kw));
    let q = p + 2;
    if q < t.len() {
        assert(s[q] == t[q]);
        if keyword_at(t, p, kw) && (is_alpha(t[q]) || is_digit(t[q])) {
            run_end_bounds(t, q, CharClass::BbNote);
            let e = run_end(t, q, CharClass::BbNote);
            if e == t.len() {
                assert(bb_at(t, p) == Some((BuildingView::Bb(Some(t.subrange(q, e))), e)));
                assert(false);
            }
            run_end_before_space(t, u, q, CharClass::BbNote);
            let e = run_end(t, q, CharClass::BbNote);
            assert(s.subrange(q, e) == t.subrange(q, e));
        }
    } else if q == t.len() && u.len() > 0 {
        assert(s[q] == u[0]);
    }
    assert(bb_at(s, p) == bb_at(t, p));
}

proof fn list_rest_before_space(t: Seq<char>, u: Seq<char>, q: int, acc: Seq<BuildingView>)
    requires
        0 <= q <= t.len(),
        u.len() > 0 ==> in_class(CharClass::MultiSpace, u[0]),
        list_rest(t, q, acc).0.len() > 0,
        !(list_rest(t, q, acc).0.last() matches BuildingView::Bb(Some(_))),
    ensures
        list_rest(t + u, q, acc) == list_rest(t, q, acc),
    decreases t.len() - q,
{
    let s = t + u;
    if q < t.len() {
        assert(s[q] == t[q]);
        if t[q] == ',' {
            building_before_comma(t, q + 1);
            match building_at(t, q + 1) {
                Some((b, r)) => {
                    if r == t.len() {
                        assert(list_rest(t, r, acc.push(b)) == (acc.push(b), r));
                        assert(acc.push(b).last() == b);
                    }
                    building_before_space(t, u, q + 1);
                    list_rest_before_space(t, u, r, acc.push(b));
                },
                None => {
                    building_before_space(t, u, q + 1);
                },
            }
        }
    } else if u.len() > 0 {
        assert(s[q] == u[0]);
    }
}

proof fn space_after_list(t: Seq<char>, u: Seq<char>)
    requires
        forall|j: int| 0 <= j < u.len() ==> #[trigger] in_class(CharClass::MultiSpace, u[j]),
        t.len() > 0,
        t.last() != ',',
        !in_class(CharClass::MultiSpace, t.last()),
        building_list_at(t, 0) matches Some((v, e)) && e == t.len() && !(v.last() matches BuildingView::Bb(Some(_))),
    ensures
        building_list_at(t + u, 0) == Some((list_items(t), (t + u).len() as int)),
{
    let tu = t + u;
    if u.len() > 0 {
        assert(in_class(CharClass::MultiSpace, u[0]));
    }
    run_end_bounds(t, 0, CharClass::MultiSpace);
    let a = run_end(t, 0, CharClass::MultiSpace);
    if a == t.len() {
        assert(in_class(CharClass::MultiSpace, t[t.len() - 1]));
    }
    run_end_before_space(t, u, 0, CharClass::MultiSpace);
    let (b, q) = building_at(t, a)->0;
    building_before_comma(t, a);
    list_rest_before_comma(t, q, seq![b]);
    let (items, e) = list_rest(t, q, seq![b]);
    if e < t.len() {
        let t2 = if t[e] == ',' {
            e + 1
        } else {
            e
        };
        run_end_bounds(t, t2, CharClass::MultiSpace);
        if t2 < t.len() {
            assert(in_class(CharClass::MultiSpace, t[t.len() - 1]));
        }
        assert(false);
    }
    assert(items == list_items(t));
    if q == t.len() {
        assert(list_rest(t, q, seq![b]) == (seq![b], q));
        assert(seq![b].last() == b);
    }
    building_before_space(t, u, a);
    list_rest_before_space(t, u, q, seq![b]);
    if u.len() > 0 {
        assert(tu[e] == u[0]);
    }
    run_end_over_space(t, u, e);
    assert(building_list_at(tu, 0) == Some((items, tu.len() as int)));
}

/// Blank space before and after a building list changes nothing: where a
/// list that ends with a building (not with `,`, white space or a `BB` note,
/// which would take blanks after it in) takes all of `t`, the same list with
/// space, tabs or line breaks on both sides takes all of that text too, with
/// the same buildings.
pub proof fn surrounding_space_changes_nothing(w: Seq<char>, t: Seq<char>, u: Seq<char>)
    requires
        forall|j: int| 0 <= j < w.len() ==> #[trigger] in_class(CharClass::MultiSpace, w[j]),
        forall|j: int| 0 <= j < u.len() ==> #[trigger] in_class(CharClass::MultiSpace, u[j]),
        t.len() > 0,
        t.last() != ',',
        !in_class(CharClass::MultiSpace, t.last()),
        building_list_at(t, 0) matches Some((v, e)) && e == t.len() && !(v.last() matches BuildingView::Bb(Some(_))),
    ensures
        building_list_at(w + t + u, 0) == Some((list_items(t), (w + t + u).len() as int)),
{
    space_after_list(t, u);
    building_list_after_space(w, t + u);
    assert(w + t + u == w + (t + u));
}

} // verus!
