//! Escaping of text for Telegram's MarkdownV2 messages.
use crate::text::{chars_of, push_char};
use vstd::prelude::*;

verus! {

/// The chars that MarkdownV2 reads as markup.
pub open spec fn is_markup(c: char) -> bool {
    c == '_' || c == '*' || c == '[' || c == '`' || c == ']' || c == '(' || c == ')' || c == '~'
        || c == '-' || c == '.' || c == '!'
}

/// `s` with a backslash before each markup char.
pub open spec fn escaped(s: Seq<char>) -> Seq<char>
    decreases s.len(),
{
    if s.len() == 0 {
        Seq::empty()
    } else if is_markup(s.last()) {
        escaped(s.drop_last()) + seq!['\\', s.last()]
    } else {
        escaped(s.drop_last()).push(s.last())
    }
}

/// Puts a backslash before each char that MarkdownV2 reads as markup.
pub fn escape_markdown(text: &str) -> (r: String)
    ensures
        r@ == escaped(text@),
{
    let chars = chars_of(text);
    let mut out = String::new();
    let mut i: usize = 0;
    while i < chars.len()
        invariant
            i <= chars@.len(),
            chars@ == text@,
            out@ == escaped(chars@.subrange(0, i as int)),
        decreases chars.len() - i,
    {
        let c = chars[i];
        let ghost before = out@;
        if c == '_' || c == '*' || c == '[' || c == '`' || c == ']' || c == '(' || c == ')' || c
            == '~' || c == '-' || c == '.' || c == '!' {
            push_char(&mut out, '\\');
            push_char(&mut out, c);
            assert(out@ == before + seq!['\\', c]);
        } else {
            push_char(&mut out, c);
        }
        assert(chars@.subrange(0, i + 1).drop_last() == chars@.subrange(0, i as int));
        i = i + 1;
    }
    assert(chars@.subrange(0, chars@.len() as int) == chars@);
    out
}

/// Text that can be escaped for MarkdownV2.
pub trait Escape {
    spec fn text(&self) -> Seq<char>;

    fn escape_markdown(&self) -> (r: String)
        ensures
            r@ == escaped(self.text()),
    ;
}

impl Escape for String {
    open spec fn text(&self) -> Seq<char> {
        self@
    }

    fn escape_markdown(&self) -> (r: String) {
        escape_markdown(self.as_str())
    }
}

impl<'a> Escape for &'a str {
    open spec fn text(&self) -> Seq<char> {
        (*self)@
    }

    fn escape_markdown(&self) -> (r: String) {
        escape_markdown(*self)
    }
}

} // verus!
