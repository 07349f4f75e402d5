use electricity::markdown::{escape_markdown, Escape};
use electricity::messages::MessageType;
use electricity::preferences::{ChatPreference, Language, TestChatPreference};
use electricity::repository::{FindAllArgs, FindOneArgs, Order};

#[test]
fn escapes_every_markup_char() {
    assert_eq!(escape_markdown("a_b*c[d]e(f)g~h-i.j!k`l"), "a\\_b\\*c\\[d\\]e\\(f\\)g\\~h\\-i\\.j\\!k\\`l");
    assert_eq!("plain text".escape_markdown(), "plain text");
    assert_eq!(String::from("1.5").escape_markdown(), "1\\.5");
    assert_eq!(escape_markdown(""), "");
}

#[test]
fn message_type_names_round_trip() {
    assert_eq!(MessageType::Text.as_str(), "text");
    assert_eq!(MessageType::Command.as_str(), "command");
    assert_eq!(MessageType::from_name("command"), Some(MessageType::Command));
    assert_eq!(MessageType::from_name("text"), Some(MessageType::Text));
    assert_eq!(MessageType::from_name("Text"), None);
}

#[test]
fn language_codes_round_trip() {
    for lang in [Language::En, Language::Ru, Language::Rs] {
        assert_eq!(Language::from_name(lang.as_str()), Some(lang));
    }
    assert_eq!(Language::from_name("de"), None);
}

#[test]
fn store_finds_first_and_updates_language() {
    let mut store = TestChatPreference::new();
    assert!(store.chat_preferences().is_empty());
    store.insert(ChatPreference { id: 1, chat_id: 10, language: Language::En });
    store.insert(ChatPreference { id: 2, chat_id: 20, language: Language::Ru });
    store.insert(ChatPreference { id: 3, chat_id: 10, language: Language::Rs });
    assert_eq!(store.find_one_by_chat_id(10).unwrap().id, 1);
    assert!(store.find_one_by_chat_id(30).is_none());
    store.update_language(10, Language::Ru);
    let all = store.chat_preferences();
    assert_eq!(all.len(), 3);
    assert!(all.iter().all(|p| p.language == Language::Ru));
    store.set_chat_preferences(vec![]);
    assert!(store.chat_preferences().is_empty());
}

#[test]
fn find_one_asks_for_one_row() {
    let args = FindAllArgs::from(FindOneArgs { order_by: Some(("id".to_string(), Order::DESC)) });
    assert_eq!(args.limit, Some(1));
    assert_eq!(args.order_by.unwrap().1, Order::DESC);
    assert_eq!(Order::ASC.as_str(), "ASC");
}
