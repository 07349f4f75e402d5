//! The language each chat has chosen, and an in-memory store of them.
use crate::text::same_text;
use vstd::prelude::*;

verus! {

#[derive(Debug, Clone, Copy, PartialEq, Eq, Structural)]
pub enum Language {
    En,
    Ru,
    Rs,
}

impl Language {
    /// The locale code of the language.
    pub fn as_str(&self) -> (r: &'static str)
        ensures
            r@ == match *self {
                Language::En => "en"@,
                Language::Ru => "ru"@,
                Language::Rs => "rs"@,
            },
    {
        match self {
            Language::En => "en",
            Language::Ru => "ru",
            Language::Rs => "rs",
        }
    }

    /// The language with the locale code `s`; `None` for an unknown code.
    pub fn from_name(s: &str) -> (r: Option<Language>)
        ensures
            r == (if s@ == "en"@ {
                Some(Language::En)
            } else if s@ == "ru"@ {
                Some(Language::Ru)
            } else if s@ == "rs"@ {
                Some(Language::Rs)
            } else {
                None
            }),
    {
        if same_text(s, "en") {
            Some(Language::En)
        } else if same_text(s, "ru") {
            Some(Language::Ru)
        } else if same_text(s, "rs") {
            Some(Language::Rs)
        } else {
            None
        }
    }
}

#[derive(Debug, Clone, Copy, PartialEq, Eq, Structural)]
pub struct ChatPreference {
    pub id: i32,
    pub chat_id: i64,
    pub language: Language,
}

#[derive(Debug, Clone, Copy, PartialEq, Eq, Structural)]
pub struct NewChatPreference {
    pub chat_id: i64,
    pub language: Language,
}

/// The preferences of the chats, in the order they were added.
pub struct TestChatPreference {
    pub chat_preferences: Vec<ChatPreference>,
}

/// The index of the first preference of the chat `chat_id` in `v`, if any.
pub open spec fn first_of_chat(v: Seq<ChatPreference>, chat_id: i64) -> Option<int> {
    if exists|i: int| is_first_of_chat(v, chat_id, i) {
        Some(choose|i: int| is_first_of_chat(v, chat_id, i))
    } else {
        None
    }
}

/// `v[i]` is the first preference of the chat `chat_id` in `v`.
pub open spec fn is_first_of_chat(v: Seq<ChatPreference>, chat_id: i64, i: int) -> bool {
    &&& 0 <= i < v.len()
    &&& v[i].chat_id == chat_id
    &&& forall|j: int| 0 <= j < i ==> v[j].chat_id != chat_id
}

/// `p` after a change of language to `language` where it belongs to the
/// chat `chat_id`.
pub open spec fn with_language(p: ChatPreference, chat_id: i64, language: Language) -> ChatPreference {
    if p.chat_id == chat_id {
        ChatPreference { language, ..p }
    } else {
        p
    }
}

fn copy_all(v: &Vec<ChatPreference>) -> (r: Vec<ChatPreference>)
    ensures
        r@ == v@,
{
    let mut r: Vec<ChatPreference> = Vec::new();
    let mut i: usize = 0;
    while i < v.len()
        invariant
            i <= v@.len(),
            r@ == v@.subrange(0, i as int),
        decreases v.len() - i,
    {
        r.push(v[i]);
        i = i + 1;
    }
    r
}

impl TestChatPreference {
    pub fn new() -> (r: TestChatPreference)
        ensures
            r.chat_preferences@ == Seq::<ChatPreference>::empty(),
    {
        TestChatPreference { chat_preferences: Vec::new() }
    }

    /// A copy of all the preferences.
    pub fn chat_preferences(&self) -> (r: Vec<ChatPreference>)
        ensures
            r@ == self.chat_preferences@,
    {
        copy_all(&self.chat_preferences)
    }

    /// Replaces all the preferences.
    pub fn set_chat_preferences(&mut self, chat_preferences: Vec<ChatPreference>)
        ensures
            final(self).chat_preferences@ == chat_preferences@,
    {
        self.chat_preferences = chat_preferences;
    }

    /// Adds a preference at the end.
    pub fn insert(&mut self, value: ChatPreference)
        ensures
            final(self).chat_preferences@ == old(self).chat_preferences@.push(value),
    {
        self.chat_preferences.push(value);
    }

    /// The first preference of the chat `chat_id`, if any.
    pub fn find_one_by_chat_id(&self, chat_id: i64) -> (r: Option<ChatPreference>)
        ensures
            r == match first_of_chat(self.chat_preferences@, chat_id) {
                Some(i) => Some(self.chat_preferences@[i]),
                None => None,
            },
    {
        let v = &self.chat_preferences;
        let mut i: usize = 0;
        while i < v.len()
            invariant
                i <= v@.len(),
                v@ == self.chat_preferences@,
                forall|j: int| 0 <= j < i ==> v@[j].chat_id != chat_id,
            decreases v.len() - i,
        {
            if v[i].chat_id == chat_id {
                assert(is_first_of_chat(v@, chat_id, i as int));
                let ghost k = first_of_chat(v@, chat_id)->0;
                assert(is_first_of_chat(v@, chat_id, k));
                assert(k == i) by {
                    if k < i {
                    } else if k > i {
                        assert(v@[i as int].chat_id == chat_id);
                    }
                }
                return Some(v[i]);
            }
            i = i + 1;
        }
        None
    }

    /// Sets the language of every preference of the chat `chat_id`.
    pub fn update_language(&mut self, chat_id: i64, language: Language)
        ensures
            final(self).chat_preferences@ == old(self).chat_preferences@.map_values(
                |p: ChatPreference| with_language(p, chat_id, language),
            ),
    {
        let mut out: Vec<ChatPreference> = Vec::new();
        let mut i: usize = 0;
        while i < self.chat_preferences.len()
            invariant
                i <= self.chat_preferences@.len(),
                out@ == self.chat_preferences@.subrange(0, i as int).map_values(
                    |p: ChatPreference| with_language(p, chat_id, language),
                ),
            decreases self.chat_preferences.len() - i,
        {
            let p = self.chat_preferences[i];
            let q = if p.chat_id == chat_id {
                ChatPreference { language, ..p }
            } else {
                p
            };
            let ghost before = out@;
            out.push(q);
            assert(self.chat_preferences@.subrange(0, i + 1).map_values(
                |p: ChatPreference| with_language(p, chat_id, language),
            ) == before.push(q));
            i = i + 1;
        }
        assert(self.chat_preferences@.subrange(0, i as int) == self.chat_preferences@);
        self.chat_preferences = out;
    }
}

} // verus!
