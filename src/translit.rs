//! Cyrillic to Latin transliteration. Every text that the other parts of
//! the library compare is first brought to lowercase Latin script, so that
//! Cyrillic and Latin spellings of one street meet.
use crate::text::{chars_of, lower_of, push_char, push_lowercase};
use vstd::prelude::*;

verus! {

/// The Latin spelling of a Serbian Cyrillic letter, in lowercase: one
/// letter, or two for Џ, Љ and Њ. `None` for every other char. Capital and
/// small letters are separate keys of the table.
pub open spec fn latin_of(c: char) -> Option<Seq<char>> {
    match c {
        'А' | 'а' => Some(seq!['a']),
        'Б' | 'б' => Some(seq!['b']),
        'Ц' | 'ц' => Some(seq!['c']),
        'Ч' | 'ч' => Some(seq!['č']),
        'Ћ' | 'ћ' => Some(seq!['ć']),
        'Д' | 'д' => Some(seq!['d']),
        'Џ' | 'џ' => Some(seq!['d', 'ž']),
        'Ђ' | 'ђ' => Some(seq!['đ']),
        'Е' | 'е' => Some(seq!['e']),
        'Ф' | 'ф' => Some(seq!['f']),
        'Г' | 'г' => Some(seq!['g']),
        'Х' | 'х' => Some(seq!['h']),
        'И' | 'и' => Some(seq!['i']),
        'Ј' | 'ј' => Some(seq!['j']),
        'К' | 'к' => Some(seq!['k']),
        'Л' | 'л' => Some(seq!['l']),
        'Љ' | 'љ' => Some(seq!['l', 'j']),
        'М' | 'м' => Some(seq!['m']),
        'Н' | 'н' => Some(seq!['n']),
        'Њ' | 'њ' => Some(seq!['n', 'j']),
        'О' | 'о' => Some(seq!['o']),
        'П' | 'п' => Some(seq!['p']),
        'Р' | 'р' => Some(seq!['r']),
        'С' | 'с' => Some(seq!['s']),
        'Ш' | 'ш' => Some(seq!['š']),
        'Т' | 'т' => Some(seq!['t']),
        'У' | 'у' => Some(seq!['u']),
        'В' | 'в' => Some(seq!['v']),
        'З' | 'з' => Some(seq!['z']),
        'Ж' | 'ж' => Some(seq!['ž']),
        _ => None,
    }
}

/// Whether `c` is a key of the transliteration table.
pub open spec fn is_key(c: char) -> bool {
    latin_of(c) is Some
}

/// What one char becomes: its Latin spelling where the table has one, else
/// its lowercase form.
pub open spec fn translit_char(c: char) -> Seq<char> {
    match latin_of(c) {
        Some(v) => v,
        None => lower_of(c),
    }
}

/// The transliteration of `s`: each char in turn, in the order of `s`.
pub open spec fn translit_spec(s: Seq<char>) -> Seq<char>
    decreases s.len(),
{
    if s.len() == 0 {
        Seq::empty()
    } else {
        translit_spec(s.drop_last()) + translit_char(s.last())
    }
}

/// A lowercase letter of the Serbian Latin alphabet.
pub open spec fn is_latin_lower(c: char) -> bool {
    ('a' <= c && c <= 'z') || c == 'č' || c == 'ć' || c == 'đ' || c == 'š' || c == 'ž'
}

/// Appends the Latin spelling of `c` to `out` where the table has one.
fn push_latin(out: &mut String, c: char) -> (found: bool)
    ensures
        found == is_key(c),
        found ==> final(out)@ == old(out)@ + latin_of(c)->0,
        !found ==> final(out)@ == old(out)@,
{
    match c {
        'А' | 'а' => {
            push_char(out, 'a');
        },
        'Б' | 'б' => {
            push_char(out, 'b');
        },
        'Ц' | 'ц' => {
            push_char(out, 'c');
        },
        'Ч' | 'ч' => {
            push_char(out, 'č');
        },
        'Ћ' | 'ћ' => {
            push_char(out, 'ć');
        },
        'Д' | 'д' => {
            push_char(out, 'd');
        },
        'Џ' | 'џ' => {
            push_char(out, 'd'); push_char(out, 'ž');
        },
        'Ђ' | 'ђ' => {
            push_char(out, 'đ');
        },
        'Е' | 'е' => {
            push_char(out, 'e');
        },
        'Ф' | 'ф' => {
            push_char(out, 'f');
        },
        'Г' | 'г' => {
            push_char(out, 'g');
        },
        'Х' | 'х' => {
            push_char(out, 'h');
        },
        'И' | 'и' => {
            push_char(out, 'i');
        },
        'Ј' | 'ј' => {
            push_char(out, 'j');
        },
        'К' | 'к' => {
            push_char(out, 'k');
        },
        'Л' | 'л' => {
            push_char(out, 'l');
        },
        'Љ' | 'љ' => {
            push_char(out, 'l'); push_char(out, 'j');
        },
        'М' | 'м' => {
            push_char(out, 'm');
        },
        'Н' | 'н' => {
            push_char(out, 'n');
        },
        'Њ' | 'њ' => {
            push_char(out, 'n'); push_char(out, 'j');
        },
        'О' | 'о' => {
            push_char(out, 'o');
        },
        'П' | 'п' => {
            push_char(out, 'p');
        },
        'Р' | 'р' => {
            push_char(out, 'r');
        },
        'С' | 'с' => {
            push_char(out, 's');
        },
        'Ш' | 'ш' => {
            push_char(out, 'š');
        },
        'Т' | 'т' => {
            push_char(out, 't');
        },
        'У' | 'у' => {
            push_char(out, 'u');
        },
        'В' | 'в' => {
            push_char(out, 'v');
        },
        'З' | 'з' => {
            push_char(out, 'z');
        },
        'Ж' | 'ж' => {
            push_char(out, 'ž');
        },
        _ => {
            return false;
        },
    }
    true
}

/// Transliterates `input` into lowercase Latin script: each char of the
/// table becomes its Latin spelling, every other char its lowercase form.
pub fn translit(input: &str) -> (r: String)
    ensures
        r@ == translit_spec(input@),
{
    let chars = chars_of(input);
    let mut out = String::new();
    let mut i: usize = 0;
    while i < chars.len()
        invariant
            i <= chars@.len(),
            chars@ == input@,
            out@ == translit_spec(chars@.subrange(0, i as int)),
        decreases chars.len() - i,
    {
        let c = chars[i];
        if !push_latin(&mut out, c) {
            push_lowercase(&mut out, c);
        }
        proof {
            let next = chars@.subrange(0, i + 1);
            assert(next.drop_last() == chars@.subrange(0, i as int));
        }
        i = i + 1;
    }
    proof {
        assert(chars@.subrange(0, chars@.len() as int) == chars@);
    }
    out
}

/// Text that can be transliterated.
pub trait Translit {
    /// The chars of the text.
    spec fn text(&self) -> Seq<char>;

    /// The text in lowercase Latin script.
    fn translit(&self) -> (r: String)
        ensures
            r@ == translit_spec(self.text());
}

impl Translit for String {
    open spec fn text(&self) -> Seq<char> {
        self@
    }

    fn translit(&self) -> (r: String) {
        translit(self.as_str())
    }
}

impl<'a> Translit for &'a str {
    open spec fn text(&self) -> Seq<char> {
        (*self)@
    }

    fn translit(&self) -> (r: String) {
        translit(*self)
    }
}

/// The empty text stays empty.
pub proof fn translit_of_empty()
    ensures
        translit_spec(Seq::<char>::empty()) == Seq::<char>::empty(),
{
}

/// Every Latin spelling in the table is made of lowercase Latin letters.
proof fn latin_values_are_lower(c: char)
    requires
        is_key(c),
    ensures
        forall|j: int| 0 <= j < latin_of(c)->0.len() ==> #[trigger] is_latin_lower(latin_of(c)->0[j]),
{
}

/// No lowercase Latin letter is a key of the table.
proof fn latin_lower_is_no_key(c: char)
    requires
        is_latin_lower(c),
    ensures
        !is_key(c),
{
}

/// Text in the table's alphabet (Serbian Cyrillic, capital or small)
/// transliterates to lowercase Latin letters only, and so to text that holds
/// no key of the table.
pub proof fn translit_of_cyrillic_has_no_key(s: Seq<char>)
    requires
        forall|i: int| 0 <= i < s.len() ==> #[trigger] is_key(s[i]),
    ensures
        forall|j: int| 0 <= j < translit_spec(s).len() ==> #[trigger] is_latin_lower(translit_spec(s)[j]),
        forall|j: int| 0 <= j < translit_spec(s).len() ==> !#[trigger] is_key(translit_spec(s)[j]),
    decreases s.len(),
{
    if s.len() > 0 {
        let init = s.drop_last();
        assert forall|i: int| 0 <= i < init.len() implies #[trigger] is_key(init[i]) by {
            assert(init[i] == s[i]);
        }
        translit_of_cyrillic_has_no_key(init);
        assert(is_key(s[s.len() - 1]));
        latin_values_are_lower(s.last());
        let t = translit_spec(s);
        let a = translit_spec(init);
        let b = translit_char(s.last());
        assert(t == a + b);
        assert forall|j: int| 0 <= j < t.len() implies #[trigger] is_latin_lower(t[j]) by {
            if j >= a.len() {
                assert(t[j] == b[j - a.len()]);
            } else {
                assert(t[j] == a[j]);
            }
        }
    }
    let t = translit_spec(s);
    assert forall|j: int| 0 <= j < t.len() implies !#[trigger] is_key(t[j]) by {
        assert(is_latin_lower(t[j]));
        latin_lower_is_no_key(t[j]);
    }
}

/// For every input: a key of the table that stands in the transliteration
/// came from lowercasing an input char that is no key itself, since the
/// table's own spellings hold no key.
pub proof fn translit_keys_come_from_lowercasing(s: Seq<char>, j: int)
    requires
        0 <= j < translit_spec(s).len(),
        is_key(translit_spec(s)[j]),
    ensures
        exists|i: int| 0 <= i < s.len() && !is_key(s[i]) && lower_of(s[i]).contains(translit_spec(s)[j]),
    decreases s.len(),
{
    let init = s.drop_last();
    let a = translit_spec(init);
    let b = translit_char(s.last());
    let t = translit_spec(s);
    assert(t == a + b);
    if j < a.len() {
        assert(t[j] == a[j]);
        translit_keys_come_from_lowercasing(init, j);
        let i = choose|i: int| 0 <= i < init.len() && !is_key(init[i]) && lower_of(init[i]).contains(a[j]);
        assert(init[i] == s[i]);
    } else {
        let k = j - a.len();
        assert(t[j] == b[k]);
        if is_key(s.last()) {
            latin_values_are_lower(s.last());
            assert(is_latin_lower(b[k]));
            latin_lower_is_no_key(b[k]);
        } else {
            assert(lower_of(s.last())[k] == t[j]);
            assert(lower_of(s[s.len() - 1]).contains(t[j]));
        }
    }
}

} // verus!
