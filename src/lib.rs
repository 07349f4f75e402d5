//! Turns free-text power outage notices into structured address records.
//!
//! - `translit` brings Cyrillic text to lowercase Latin script;
//! - `addresses` parses an address cell into settlements, streets and
//!   building numbers (`address` holds the types);
//! - `elektrodistribucija_parser` and `failures` read the distributor's
//!   outage pages into outage records, `time_interval` the times they give;
//! - `streets` reads the pages of the city's street register;
//! - `html` is what these ask of the HTML parser, `text` shared text helpers;
//! - `markdown`, `messages`, `preferences`, `repository` and `subscriptions`
//!   hold the data of the chat bot that tells its users of outages.

pub mod address;
pub mod addresses;
pub mod elektrodistribucija_parser;
pub mod failures;
pub mod html;
pub mod markdown;
pub mod messages;
pub mod preferences;
pub mod repository;
pub mod streets;
pub mod subscriptions;
pub mod text;
pub mod time_interval;
pub mod translit;
