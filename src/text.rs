//! Small text utilities on `char` sequences that the other modules share.
use vstd::prelude::*;

verus! {

/// What `char::to_lowercase` yields for `c`: one or more chars, which the
/// Unicode tables alone decide.
pub uninterp spec fn lower_of(c: char) -> Seq<char>;

/// Whether `c` has the Unicode `White_Space` property, as `char::is_whitespace` says.
pub uninterp spec fn white_space(c: char) -> bool;

/// Relies on `str::chars`: the chars of `s`, in order.
#[verifier::external_body]
pub(crate) fn chars_of(s: &str) -> (r: Vec<char>)
    ensures
        r@ == s@,
{
    s.chars().collect()
}

/// Relies on `String::push`: appends one char at the end.
#[verifier::external_body]
pub(crate) fn push_char(s: &mut String, c: char)
    ensures
        final(s)@ == old(s)@.push(c),
{
    s.push(c)
}

/// Relies on `char::to_lowercase`: the lowercase mapping of `c`, appended to `s`.
#[verifier::external_body]
pub(crate) fn push_lowercase(s: &mut String, c: char)
    ensures
        final(s)@ == old(s)@ + lower_of(c),
{
    s.extend(c.to_lowercase())
}

/// Relies on `char::is_whitespace`.
#[verifier::external_body]
pub(crate) fn is_white_space(c: char) -> (r: bool)
    ensures
        r == white_space(c),
{
    c.is_whitespace()
}

/// The text `s` as an owned string.
pub(crate) fn string_of(s: &Vec<char>, from: usize, to: usize) -> (r: String)
    requires
        from <= to <= s@.len(),
    ensures
        r@ == s@.subrange(from as int, to as int),
{
    let mut r = String::new();
    let mut i: usize = from;
    while i < to
        invariant
            from <= i <= to <= s@.len(),
            r@ == s@.subrange(from as int, i as int),
        decreases to - i,
    {
        push_char(&mut r, s[i]);
        proof {
            assert(s@.subrange(from as int, i + 1) == s@.subrange(from as int, i as int).push(s@[i as int]));
        }
        i = i + 1;
    }
    r
}

/// `s` without the white space at its start.
pub open spec fn trim_start(s: Seq<char>) -> Seq<char>
    decreases s.len(),
{
    if s.len() > 0 && white_space(s[0]) {
        trim_start(s.drop_first())
    } else {
        s
    }
}

/// `s` without the white space at its end.
pub open spec fn trim_end(s: Seq<char>) -> Seq<char>
    decreases s.len(),
{
    if s.len() > 0 && white_space(s.last()) {
        trim_end(s.drop_last())
    } else {
        s
    }
}

/// `s` without the white space at either end, as `str::trim` gives it.
pub open spec fn trimmed(s: Seq<char>) -> Seq<char> {
    trim_end(trim_start(s))
}

/// The chars of `s` from `from` to `to`, without white space at either end.
pub(crate) fn trimmed_string(s: &Vec<char>, from: usize, to: usize) -> (r: String)
    requires
        from <= to <= s@.len(),
    ensures
        r@ == trimmed(s@.subrange(from as int, to as int)),
{
    let mut a: usize = from;
    while a < to && is_white_space(s[a])
        invariant
            from <= a <= to <= s@.len(),
            trim_start(s@.subrange(from as int, to as int)) == trim_start(s@.subrange(a as int, to as int)),
        decreases to - a,
    {
        assert(s@.subrange(a as int, to as int).drop_first() == s@.subrange(a + 1, to as int));
        a = a + 1;
    }
    let mut b: usize = to;
    while b > a && is_white_space(s[b - 1])
        invariant
            from <= a <= b <= to <= s@.len(),
            trim_start(s@.subrange(from as int, to as int)) == s@.subrange(a as int, to as int),
            trim_end(s@.subrange(a as int, to as int)) == trim_end(s@.subrange(a as int, b as int)),
        decreases b - a,
    {
        assert(s@.subrange(a as int, b as int).drop_last() == s@.subrange(a as int, b - 1));
        b = b - 1;
    }
    string_of(s, a, b)
}

/// Whether `a` and `b` hold the same chars.
pub(crate) fn same_text(a: &str, b: &str) -> (r: bool)
    ensures
        r == (a@ == b@),
{
    let x = chars_of(a);
    let y = chars_of(b);
    if x.len() != y.len() {
        return false;
    }
    let mut i: usize = 0;
    while i < x.len()
        invariant
            i <= x@.len() == y@.len(),
            x@ == a@,
            y@ == b@,
            forall|j: int| 0 <= j < i ==> x@[j] == y@[j],
        decreases x.len() - i,
    {
        if x[i] != y[i] {
            assert(x@[i as int] != y@[i as int]);
            return false;
        }
        i = i + 1;
    }
    assert(x@ == y@);
    true
}

/// `s` without the white space at its end, as `str::trim_end` gives it.
pub(crate) fn trimmed_end_string(s: &Vec<char>) -> (r: String)
    ensures
        r@ == trim_end(s@),
{
    let mut b: usize = s.len();
    assert(s@.subrange(0, b as int) == s@);
    while b > 0 && is_white_space(s[b - 1])
        invariant
            b <= s@.len(),
            trim_end(s@) == trim_end(s@.subrange(0, b as int)),
        decreases b,
    {
        assert(s@.subrange(0, b as int).drop_last() == s@.subrange(0, b - 1));
        b = b - 1;
    }
    string_of(s, 0, b)
}

/// Appends the chars of `s` from `from` on to `out`.
pub(crate) fn push_all(out: &mut String, s: &Vec<char>, from: usize)
    requires
        from <= s@.len(),
    ensures
        final(out)@ == old(out)@ + s@.subrange(from as int, s@.len() as int),
{
    let mut i: usize = from;
    while i < s.len()
        invariant
            from <= i <= s@.len(),
            out@ == old(out)@ + s@.subrange(from as int, i as int),
        decreases s.len() - i,
    {
        push_char(out, s[i]);
        assert(s@.subrange(from as int, i + 1) == s@.subrange(from as int, i as int).push(s@[i as int]));
        i = i + 1;
    }
}

/// Appends the chars of `t` to `out`.
pub(crate) fn push_text(out: &mut String, t: &str)
    ensures
        final(out)@ == old(out)@ + t@,
{
    let chars = chars_of(t);
    push_all(out, &chars, 0);
    assert(chars@.subrange(0, chars@.len() as int) == chars@);
}

} // verus!
