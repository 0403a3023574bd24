//! Typed outbound payloads for a messaging service's HTTP API, together with
//! a verified serializer for the wire format the service expects.
//!
//! Callers build request values (`Message`, `AnswerInlineQuery`, keyboard
//! layouts) through constructors and fluent mutators, then serialize them
//! with [`Encode::to_json`].  The wire document each value maps to is stated
//! by the spec-level model in [`json`], so every omission rule (absent
//! optional fields, default parse mode) and every discriminator tag is part
//! of the serializer's contract.

pub mod json;
pub mod laws;
pub mod request;

pub use json::Encode;
pub use json::WireValue;
pub use request::AnswerInlineQuery;
pub use request::Audio;
pub use request::AudioMessage;
pub use request::InlineKeyboardButton;
pub use request::InlineQueryResult;
pub use request::InputMessageContent;
pub use request::KeyboardButton;
pub use request::Message;
pub use request::ParseMode;
pub use request::ReplyMarkup;
