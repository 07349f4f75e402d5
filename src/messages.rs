//! Messages that the chat bot keeps.
use crate::text::same_text;
use vstd::prelude::*;

verus! {

#[derive(Debug, Clone, Copy, PartialEq, Eq, Structural)]
pub enum MessageType {
    Text,
    Command,
}

impl MessageType {
    /// The stored name of the type.
    pub fn as_str(&self) -> (r: &'static str)
        ensures
            r@ == match *self {
                MessageType::Text => "text"@,
                MessageType::Command => "command"@,
            },
    {
        match self {
            MessageType::Text => "text",
            MessageType::Command => "command",
        }
    }

    /// The type with the stored name `s`; `None` for an unknown name.
    pub fn from_name(s: &str) -> (r: Option<MessageType>)
        ensures
            r == (if s@ == "text"@ {
                Some(MessageType::Text)
            } else if s@ == "command"@ {
                Some(MessageType::Command)
            } else {
                None
            }),
    {
        if same_text(s, "text") {
            Some(MessageType::Text)
        } else if same_text(s, "command") {
            Some(MessageType::Command)
        } else {
            None
        }
    }
}

#[derive(Debug)]
pub struct Message {
    pub id: i32,
    pub chat_id: i64,
    pub text: String,
    pub message_type: MessageType,
}

#[derive(Debug)]
pub struct NewMessage {
    pub chat_id: i64,
    pub text: String,
    pub message_type: MessageType,
}

} // verus!
