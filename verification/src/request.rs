//! The request payloads: value types, variant types and composite entities,
//! each with its constructors, fluent mutators and verified serializer.
//!
//! Every entity states its wire object through `Encode::wire_members`: the
//! ordered member list of the object it serializes to, with the omission
//! rules (absent optional fields, the default parse mode) and the
//! discriminator tags applied.  `Encode::to_json` is proved to produce
//! exactly the rendering of that object.

use vstd::prelude::*;

verus! {

use crate::json::ArrayWriter;
use crate::json::Encode;
use crate::json::ObjectWriter;
use crate::json::WireValue;
use crate::json::opt_bool_member;
use crate::json::opt_i32_member;
use crate::json::opt_i64_member;
use crate::json::opt_str_member;
use crate::json::opt_u16_member;

/// How the receiving service should interpret message text.  `Plain` is the
/// default and is never written to the wire.
#[derive(Clone, Debug, PartialEq, Eq, Structural)]
pub enum ParseMode {
    Plain,
    Markdown,
    Html,
}

impl ParseMode {
    /// The lower-case name this alternative goes out under.
    pub open spec fn wire_name(self) -> Seq<char> {
        match self {
            ParseMode::Plain => "plain"@,
            ParseMode::Markdown => "markdown"@,
            ParseMode::Html => "html"@,
        }
    }

    /// Whether this is the default alternative, the one omitted from the
    /// wire form.
    pub fn is_plain(&self) -> (r: bool)
        ensures
            r == (*self == ParseMode::Plain),
    {
        *self == ParseMode::Plain
    }

    /// The lower-case name as an executable string.
    pub fn wire_name_str(&self) -> (s: &'static str)
        ensures
            s@ == self.wire_name(),
    {
        match self {
            ParseMode::Plain => "plain",
            ParseMode::Markdown => "markdown",
            ParseMode::Html => "html",
        }
    }
}

impl Default for ParseMode {
    fn default() -> (m: ParseMode)
        ensures
            m == ParseMode::Plain,
    {
        ParseMode::Plain
    }
}

/// An outbound chat message: mandatory chat identifier and text, parse mode
/// defaulting to `Plain`, and an optional reply markup.
#[derive(Clone, Debug)]
pub struct Message {
    pub chat_id: i64,
    pub text: String,
    pub parse_mode: ParseMode,
    pub reply_markup: Option<ReplyMarkup>,
}

impl Message {
    pub fn new(chat_id: i64, text: String) -> (m: Message)
        ensures
            m.chat_id == chat_id,
            m.text == text,
            m.parse_mode == ParseMode::Plain,
            m.reply_markup is None,
    {
        Message { chat_id, text, parse_mode: ParseMode::Plain, reply_markup: None }
    }

    /// A message that pre-attaches the "remove the reply keyboard" markup.
    pub fn with_keyboard_remover(chat_id: i64, text: String) -> (m: Message)
        ensures
            m.chat_id == chat_id,
            m.text == text,
            m.parse_mode == ParseMode::Plain,
            m.reply_markup == Some(
                (ReplyMarkup::ReplyKeyboardRemove { remove_keyboard: true, selective: None }),
            ),
    {
        Message {
            chat_id,
            text,
            parse_mode: ParseMode::Plain,
            reply_markup: Some(ReplyMarkup::reply_keyboard_remove()),
        }
    }

    /// Fluent mutator: the same message with the given parse mode.
    pub fn parse_mode(self, mode: ParseMode) -> (m: Message)
        ensures
            m.chat_id == self.chat_id,
            m.text == self.text,
            m.parse_mode == mode,
            m.reply_markup == self.reply_markup,
    {
        Message { parse_mode: mode, ..self }
    }
}

impl Encode for Message {
    open spec fn wire_members(&self) -> Seq<(Seq<char>, WireValue)> {
        seq![
            ("chat_id"@, WireValue::Int(self.chat_id as int)),
            ("text"@, WireValue::Str(self.text@)),
        ] + (if self.parse_mode == ParseMode::Plain {
            Seq::empty()
        } else {
            seq![("parse_mode"@, WireValue::Str(self.parse_mode.wire_name()))]
        }) + (match self.reply_markup {
            Option::None => Seq::empty(),
            Option::Some(rm) => seq![("reply_markup"@, WireValue::Obj(rm.wire_members()))],
        })
    }

    fn to_json(&self) -> (s: String) {
        let mut w = ObjectWriter::begin();
        w.field_i64("chat_id", self.chat_id);
        w.field_str("text", self.text.as_str());
        if !self.parse_mode.is_plain() {
            w.field_str("parse_mode", self.parse_mode.wire_name_str());
        }
        match &self.reply_markup {
            Option::Some(rm) => {
                let sub = rm.to_json();
                w.field_sub(
                    "reply_markup",
                    sub.as_str(),
                    Ghost(WireValue::Obj(rm.wire_members())),
                );
            },
            Option::None => {},
        }
        proof {
            assert(w.members() =~= self.wire_members());
        }
        w.finish()
    }
}

/// The wire objects of a sequence of serializable values, in the same
/// order.
pub open spec fn results_wire<R: Encode>(rs: Seq<R>) -> Seq<WireValue> {
    rs.map_values(|r: R| WireValue::Obj(r.wire_members()))
}

/// The answer to an inline query: its identifier, the result items in the
/// order they are to be displayed, and optional tuning fields.
#[derive(Clone, Debug)]
pub struct AnswerInlineQuery<R: Encode> {
    pub inline_query_id: String,
    pub results: Vec<R>,
    pub cache_time: Option<i64>,
    pub is_personal: Option<bool>,
    pub next_offset: String,
    pub switch_pm_text: Option<String>,
    pub switch_pm_parameter: Option<String>,
}

impl<R: Encode> AnswerInlineQuery<R> {
    pub fn new(inline_query_id: String, results: Vec<R>, next_offset: String) -> (a:
        AnswerInlineQuery<R>)
        ensures
            a.inline_query_id == inline_query_id,
            a.results == results,
            a.next_offset == next_offset,
            a.cache_time is None,
            a.is_personal is None,
            a.switch_pm_text is None,
            a.switch_pm_parameter is None,
    {
        AnswerInlineQuery {
            inline_query_id,
            results,
            cache_time: None,
            is_personal: None,
            next_offset,
            switch_pm_text: None,
            switch_pm_parameter: None,
        }
    }
}

impl<R: Encode> Encode for AnswerInlineQuery<R> {
    open spec fn wire_members(&self) -> Seq<(Seq<char>, WireValue)> {
        seq![
            ("inline_query_id"@, WireValue::Str(self.inline_query_id@)),
            ("results"@, WireValue::Arr(results_wire(self.results@))),
        ] + opt_i64_member("cache_time"@, self.cache_time) + opt_bool_member(
            "is_personal"@,
            self.is_personal,
        ) + seq![("next_offset"@, WireValue::Str(self.next_offset@))] + opt_str_member(
            "switch_pm_text"@,
            self.switch_pm_text,
        ) + opt_str_member("switch_pm_parameter"@, self.switch_pm_parameter)
    }

    fn to_json(&self) -> (s: String) {
        let mut w = ObjectWriter::begin();
        w.field_str("inline_query_id", self.inline_query_id.as_str());
        let mut a = ArrayWriter::begin();
        let mut i: usize = 0;
        while i < self.results.len()
            invariant
                a.wf(),
                i <= self.results@.len(),
                a.items() == results_wire(self.results@.take(i as int)),
            decreases self.results@.len() - i,
        {
            let sub = self.results[i].to_json();
            a.item(sub.as_str(), Ghost(WireValue::Obj(self.results@[i as int].wire_members())));
            proof {
                assert(results_wire(self.results@.take(i + 1)) =~= results_wire(
                    self.results@.take(i as int),
                ).push(WireValue::Obj(self.results@[i as int].wire_members())));
            }
            i = i + 1;
        }
        proof {
            assert(self.results@.take(self.results@.len() as int) =~= self.results@);
        }
        let arr = a.finish();
        w.field_sub(
            "results",
            arr.as_str(),
            Ghost(WireValue::Arr(results_wire(self.results@))),
        );
        if let Some(n) = self.cache_time {
            w.field_i64("cache_time", n);
        }
        if let Some(b) = self.is_personal {
            w.field_bool("is_personal", b);
        }
        w.field_str("next_offset", self.next_offset.as_str());
        match &self.switch_pm_text {
            Option::Some(t) => w.field_str("switch_pm_text", t.as_str()),
            Option::None => {},
        }
        match &self.switch_pm_parameter {
            Option::Some(t) => w.field_str("switch_pm_parameter", t.as_str()),
            Option::None => {},
        }
        proof {
            assert(w.members() =~= self.wire_members());
        }
        w.finish()
    }
}

/// The text payload nested inside an inline result.
#[derive(Clone, Debug)]
pub struct InputMessageContent {
    pub message_text: String,
}

impl Encode for InputMessageContent {
    open spec fn wire_members(&self) -> Seq<(Seq<char>, WireValue)> {
        seq![("message_text"@, WireValue::Str(self.message_text@))]
    }

    fn to_json(&self) -> (s: String) {
        let mut w = ObjectWriter::begin();
        w.field_str("message_text", self.message_text.as_str());
        proof {
            assert(w.members() =~= self.wire_members());
        }
        w.finish()
    }
}

/// One result offered in answer to an inline query.  The wire object of
/// each alternative carries a `type` discriminator holding the alternative's
/// lower-case name.
#[derive(Clone, Debug)]
pub enum InlineQueryResult {
    Article {
        id: String,
        title: String,
        input_message_content: InputMessageContent,
        description: Option<String>,
        thumb_url: Option<String>,
        thumb_width: Option<u16>,
        thumb_height: Option<u16>,
    },
}

impl InlineQueryResult {
    /// An article result with description and thumbnail details all
    /// supplied.
    pub fn article(
        id: String,
        title: String,
        message_text: String,
        description: String,
        thumb_url: String,
        thumb_height: u16,
        thumb_width: u16,
    ) -> (r: InlineQueryResult)
        ensures
            r == (InlineQueryResult::Article {
                id,
                title,
                input_message_content: InputMessageContent { message_text },
                description: Some(description),
                thumb_url: Some(thumb_url),
                thumb_width: Some(thumb_width),
                thumb_height: Some(thumb_height),
            }),
    {
        let input_message_content = InputMessageContent { message_text };
        InlineQueryResult::Article {
            id,
            title,
            input_message_content,
            description: Some(description),
            thumb_url: Some(thumb_url),
            thumb_height: Some(thumb_height),
            thumb_width: Some(thumb_width),
        }
    }
}

impl Encode for InlineQueryResult {
    open spec fn wire_members(&self) -> Seq<(Seq<char>, WireValue)> {
        match *self {
            InlineQueryResult::Article {
                id,
                title,
                input_message_content,
                description,
                thumb_url,
                thumb_width,
                thumb_height,
            } => seq![
                ("type"@, WireValue::Str("article"@)),
                ("id"@, WireValue::Str(id@)),
                ("title"@, WireValue::Str(title@)),
                ("input_message_content"@, WireValue::Obj(input_message_content.wire_members())),
            ] + opt_str_member("description"@, description) + opt_str_member(
                "thumb_url"@,
                thumb_url,
            ) + opt_u16_member("thumb_width"@, thumb_width) + opt_u16_member(
                "thumb_height"@,
                thumb_height,
            ),
        }
    }

    fn to_json(&self) -> (s: String) {
        match self {
            InlineQueryResult::Article {
                id,
                title,
                input_message_content,
                description,
                thumb_url,
                thumb_width,
                thumb_height,
            } => {
                let mut w = ObjectWriter::begin();
                w.field_str("type", "article");
                w.field_str("id", id.as_str());
                w.field_str("title", title.as_str());
                let sub = input_message_content.to_json();
                w.field_sub(
                    "input_message_content",
                    sub.as_str(),
                    Ghost(WireValue::Obj(input_message_content.wire_members())),
                );
                match description {
                    Option::Some(d) => w.field_str("description", d.as_str()),
                    Option::None => {},
                }
                match thumb_url {
                    Option::Some(u) => w.field_str("thumb_url", u.as_str()),
                    Option::None => {},
                }
                if let Some(tw) = thumb_width {
                    w.field_i64("thumb_width", *tw as i64);
                }
                if let Some(th) = thumb_height {
                    w.field_i64("thumb_height", *th as i64);
                }
                proof {
                    assert(w.members() =~= self.wire_members());
                }
                w.finish()
            },
        }
    }
}

/// The wire objects of a row of reply-keyboard buttons, in order.
pub open spec fn key_row_wire(row: Seq<KeyboardButton>) -> Seq<WireValue> {
    row.map_values(|b: KeyboardButton| WireValue::Obj(b.wire_members()))
}

/// The wire arrays of a whole reply keyboard, row by row.
pub open spec fn keyboard_wire(rows: Seq<Vec<KeyboardButton>>) -> Seq<WireValue> {
    rows.map_values(|row: Vec<KeyboardButton>| WireValue::Arr(key_row_wire(row@)))
}

/// The wire objects of a row of inline-keyboard buttons, in order.
pub open spec fn inline_row_wire(row: Seq<InlineKeyboardButton>) -> Seq<WireValue> {
    row.map_values(|b: InlineKeyboardButton| WireValue::Obj(b.wire_members()))
}

/// What a message offers the receiving client by way of reply: exactly one
/// of an inline keyboard, a reply keyboard, an order to remove the reply
/// keyboard, or a force-reply request.  The alternatives are distinguished
/// structurally on the wire: each writes only its own fields.
#[derive(Clone, Debug)]
pub enum ReplyMarkup {
    InlineKeyboardMarkup { inline_keyboard: Vec<InlineKeyboardButton> },
    ReplyKeyboardMarkup {
        keyboard: Vec<Vec<KeyboardButton>>,
        resize_keyboard: Option<bool>,
        one_time_keyboard: Option<bool>,
        selective: Option<bool>,
    },
    ReplyKeyboardRemove { remove_keyboard: bool, selective: Option<bool> },
    ForceReply { force_reply: bool, selective: Option<bool> },
}

impl ReplyMarkup {
    pub fn inline_keyboard_markup(rows: Vec<InlineKeyboardButton>) -> (m: ReplyMarkup)
        ensures
            m == (ReplyMarkup::InlineKeyboardMarkup { inline_keyboard: rows }),
    {
        ReplyMarkup::InlineKeyboardMarkup { inline_keyboard: rows }
    }

    /// A regular keyboard of one row, resized to fit its buttons.
    pub fn reply_keyboard_markup(rows: Vec<KeyboardButton>) -> (m: ReplyMarkup)
        ensures
            m matches ReplyMarkup::ReplyKeyboardMarkup {
                keyboard,
                resize_keyboard,
                one_time_keyboard,
                selective,
            } && keyboard@ == seq![rows] && resize_keyboard == Some(true) && one_time_keyboard
                is None && selective is None,
    {
        let mut keyboard: Vec<Vec<KeyboardButton>> = Vec::new();
        keyboard.push(rows);
        proof {
            assert(keyboard@ =~= seq![rows]);
        }
        ReplyMarkup::ReplyKeyboardMarkup {
            keyboard,
            resize_keyboard: Some(true),
            one_time_keyboard: None,
            selective: None,
        }
    }

    /// The order to remove the reply keyboard.
    pub fn reply_keyboard_remove() -> (m: ReplyMarkup)
        ensures
            m == (ReplyMarkup::ReplyKeyboardRemove { remove_keyboard: true, selective: None }),
    {
        ReplyMarkup::ReplyKeyboardRemove { remove_keyboard: true, selective: None }
    }
}

impl Encode for ReplyMarkup {
    open spec fn wire_members(&self) -> Seq<(Seq<char>, WireValue)> {
        match *self {
            ReplyMarkup::InlineKeyboardMarkup { inline_keyboard } => seq![
                ("inline_keyboard"@, WireValue::Arr(inline_row_wire(inline_keyboard@))),
            ],
            ReplyMarkup::ReplyKeyboardMarkup {
                keyboard,
                resize_keyboard,
                one_time_keyboard,
                selective,
            } => seq![("keyboard"@, WireValue::Arr(keyboard_wire(keyboard@)))] + opt_bool_member(
                "resize_keyboard"@,
                resize_keyboard,
            ) + opt_bool_member("one_time_keyboard"@, one_time_keyboard) + opt_bool_member(
                "selective"@,
                selective,
            ),
            ReplyMarkup::ReplyKeyboardRemove { remove_keyboard, selective } => seq![
                ("remove_keyboard"@, WireValue::Bool(remove_keyboard)),
            ] + opt_bool_member("selective"@, selective),
            ReplyMarkup::ForceReply { force_reply, selective } => seq![
                ("force_reply"@, WireValue::Bool(force_reply)),
            ] + opt_bool_member("selective"@, selective),
        }
    }

    fn to_json(&self) -> (s: String) {
        match self {
            ReplyMarkup::InlineKeyboardMarkup { inline_keyboard } => {
                let mut w = ObjectWriter::begin();
                let mut a = ArrayWriter::begin();
                let mut i: usize = 0;
                while i < inline_keyboard.len()
                    invariant
                        a.wf(),
                        i <= inline_keyboard@.len(),
                        a.items() == inline_row_wire(inline_keyboard@.take(i as int)),
                    decreases inline_keyboard@.len() - i,
                {
                    let sub = inline_keyboard[i].to_json();
                    a.item(
                        sub.as_str(),
                        Ghost(WireValue::Obj(inline_keyboard@[i as int].wire_members())),
                    );
                    proof {
                        assert(inline_row_wire(inline_keyboard@.take(i + 1)) =~= inline_row_wire(
                            inline_keyboard@.take(i as int),
                        ).push(WireValue::Obj(inline_keyboard@[i as int].wire_members())));
                    }
                    i = i + 1;
                }
                proof {
                    assert(inline_keyboard@.take(inline_keyboard@.len() as int)
                        =~= inline_keyboard@);
                }
                let arr = a.finish();
                w.field_sub(
                    "inline_keyboard",
                    arr.as_str(),
                    Ghost(WireValue::Arr(inline_row_wire(inline_keyboard@))),
                );
                proof {
                    assert(w.members() =~= self.wire_members());
                }
                w.finish()
            },
            ReplyMarkup::ReplyKeyboardMarkup {
                keyboard,
                resize_keyboard,
                one_time_keyboard,
                selective,
            } => {
                let mut w = ObjectWriter::begin();
                let mut a = ArrayWriter::begin();
                let mut i: usize = 0;
                while i < keyboard.len()
                    invariant
                        a.wf(),
                        i <= keyboard@.len(),
                        a.items() == keyboard_wire(keyboard@.take(i as int)),
                    decreases keyboard@.len() - i,
                {
                    let row = &keyboard[i];
                    let mut ra = ArrayWriter::begin();
                    let mut j: usize = 0;
                    while j < row.len()
                        invariant
                            ra.wf(),
                            j <= row@.len(),
                            ra.items() == key_row_wire(row@.take(j as int)),
                        decreases row@.len() - j,
                    {
                        let sub = row[j].to_json();
                        ra.item(sub.as_str(), Ghost(WireValue::Obj(row@[j as int].wire_members())));
                        proof {
                            assert(key_row_wire(row@.take(j + 1)) =~= key_row_wire(
                                row@.take(j as int),
                            ).push(WireValue::Obj(row@[j as int].wire_members())));
                        }
                        j = j + 1;
                    }
                    proof {
                        assert(row@.take(row@.len() as int) =~= row@);
                    }
                    let row_text = ra.finish();
                    a.item(
                        row_text.as_str(),
                        Ghost(WireValue::Arr(key_row_wire(keyboard@[i as int]@))),
                    );
                    proof {
                        assert(keyboard_wire(keyboard@.take(i + 1)) =~= keyboard_wire(
                            keyboard@.take(i as int),
                        ).push(WireValue::Arr(key_row_wire(keyboard@[i as int]@))));
                    }
                    i = i + 1;
                }
                proof {
                    assert(keyboard@.take(keyboard@.len() as int) =~= keyboard@);
                }
                let arr = a.finish();
                w.field_sub(
                    "keyboard",
                    arr.as_str(),
                    Ghost(WireValue::Arr(keyboard_wire(keyboard@))),
                );
                if let Some(b) = resize_keyboard {
                    w.field_bool("resize_keyboard", *b);
                }
                if let Some(b) = one_time_keyboard {
                    w.field_bool("one_time_keyboard", *b);
                }
                if let Some(b) = selective {
                    w.field_bool("selective", *b);
                }
                proof {
                    assert(w.members() =~= self.wire_members());
                }
                w.finish()
            },
            ReplyMarkup::ReplyKeyboardRemove { remove_keyboard, selective } => {
                let mut w = ObjectWriter::begin();
                w.field_bool("remove_keyboard", *remove_keyboard);
                if let Some(b) = selective {
                    w.field_bool("selective", *b);
                }
                proof {
                    assert(w.members() =~= self.wire_members());
                }
                w.finish()
            },
            ReplyMarkup::ForceReply { force_reply, selective } => {
                let mut w = ObjectWriter::begin();
                w.field_bool("force_reply", *force_reply);
                if let Some(b) = selective {
                    w.field_bool("selective", *b);
                }
                proof {
                    assert(w.members() =~= self.wire_members());
                }
                w.finish()
            },
        }
    }
}

/// One button of an inline keyboard: a label and a closed set of mutually
/// contextual optional actions.  Nothing enforces exclusivity among the
/// actions at construction time; that is the caller's responsibility.
#[derive(Clone, Debug)]
pub struct InlineKeyboardButton {
    pub text: String,
    pub url: Option<String>,
    pub callback_data: Option<String>,
    pub switch_inline_query: Option<String>,
    pub switch_inline_query_current_chat: Option<String>,
    pub pay: Option<bool>,
}

impl Default for InlineKeyboardButton {
    /// A button with an empty label and no action.
    fn default() -> (b: InlineKeyboardButton)
        ensures
            b.text@ == Seq::<char>::empty(),
            b.url is None,
            b.callback_data is None,
            b.switch_inline_query is None,
            b.switch_inline_query_current_chat is None,
            b.pay is None,
    {
        InlineKeyboardButton {
            text: String::new(),
            url: None,
            callback_data: None,
            switch_inline_query: None,
            switch_inline_query_current_chat: None,
            pay: None,
        }
    }
}

impl Encode for InlineKeyboardButton {
    open spec fn wire_members(&self) -> Seq<(Seq<char>, WireValue)> {
        seq![("text"@, WireValue::Str(self.text@))] + opt_str_member("url"@, self.url)
            + opt_str_member("callback_data"@, self.callback_data) + opt_str_member(
            "switch_inline_query"@,
            self.switch_inline_query,
        ) + opt_str_member(
            "switch_inline_query_current_chat"@,
            self.switch_inline_query_current_chat,
        ) + opt_bool_member("pay"@, self.pay)
    }

    fn to_json(&self) -> (s: String) {
        let mut w = ObjectWriter::begin();
        w.field_str("text", self.text.as_str());
        match &self.url {
            Option::Some(v) => w.field_str("url", v.as_str()),
            Option::None => {},
        }
        match &self.callback_data {
            Option::Some(v) => w.field_str("callback_data", v.as_str()),
            Option::None => {},
        }
        match &self.switch_inline_query {
            Option::Some(v) => w.field_str("switch_inline_query", v.as_str()),
            Option::None => {},
        }
        match &self.switch_inline_query_current_chat {
            Option::Some(v) => w.field_str("switch_inline_query_current_chat", v.as_str()),
            Option::None => {},
        }
        if let Some(b) = self.pay {
            w.field_bool("pay", b);
        }
        proof {
            assert(w.members() =~= self.wire_members());
        }
        w.finish()
    }
}

/// One button of a regular reply keyboard.
#[derive(Clone, Debug)]
pub struct KeyboardButton {
    pub text: String,
    pub request_contact: Option<bool>,
    pub request_location: Option<bool>,
}

impl KeyboardButton {
    pub fn new(text: String) -> (b: KeyboardButton)
        ensures
            b.text == text,
            b.request_contact is None,
            b.request_location is None,
    {
        KeyboardButton { text, request_contact: None, request_location: None }
    }
}

impl Encode for KeyboardButton {
    open spec fn wire_members(&self) -> Seq<(Seq<char>, WireValue)> {
        seq![("text"@, WireValue::Str(self.text@))] + opt_bool_member(
            "request_contact"@,
            self.request_contact,
        ) + opt_bool_member("request_location"@, self.request_location)
    }

    fn to_json(&self) -> (s: String) {
        let mut w = ObjectWriter::begin();
        w.field_str("text", self.text.as_str());
        if let Some(b) = self.request_contact {
            w.field_bool("request_contact", b);
        }
        if let Some(b) = self.request_location {
            w.field_bool("request_location", b);
        }
        proof {
            assert(w.members() =~= self.wire_members());
        }
        w.finish()
    }
}

/// An audio attachment.
#[derive(Clone, Debug)]
pub struct Audio {
    pub file_id: String,
    pub duration: i32,
    pub performer: Option<String>,
    pub title: Option<String>,
    pub mime_type: Option<String>,
    pub file_size: Option<i32>,
}

impl Audio {
    /// An audio attachment with only the mandatory fields set.
    pub fn new(file_id: String, duration: i32) -> (a: Audio)
        ensures
            a.file_id == file_id,
            a.duration == duration,
            a.performer is None,
            a.title is None,
            a.mime_type is None,
            a.file_size is None,
    {
        Audio {
            file_id,
            duration,
            performer: None,
            title: None,
            mime_type: None,
            file_size: None,
        }
    }
}

impl Encode for Audio {
    open spec fn wire_members(&self) -> Seq<(Seq<char>, WireValue)> {
        seq![
            ("file_id"@, WireValue::Str(self.file_id@)),
            ("duration"@, WireValue::Int(self.duration as int)),
        ] + opt_str_member("performer"@, self.performer) + opt_str_member("title"@, self.title)
            + opt_str_member("mime_type"@, self.mime_type) + opt_i32_member(
            "file_size"@,
            self.file_size,
        )
    }

    fn to_json(&self) -> (s: String) {
        let mut w = ObjectWriter::begin();
        w.field_str("file_id", self.file_id.as_str());
        w.field_i64("duration", self.duration as i64);
        match &self.performer {
            Option::Some(v) => w.field_str("performer", v.as_str()),
            Option::None => {},
        }
        match &self.title {
            Option::Some(v) => w.field_str("title", v.as_str()),
            Option::None => {},
        }
        match &self.mime_type {
            Option::Some(v) => w.field_str("mime_type", v.as_str()),
            Option::None => {},
        }
        if let Some(n) = self.file_size {
            w.field_i64("file_size", n as i64);
        }
        proof {
            assert(w.members() =~= self.wire_members());
        }
        w.finish()
    }
}

/// A message that carries an audio attachment by file identifier.
#[derive(Clone, Debug)]
pub struct AudioMessage {
    pub chat_id: i64,
    pub audio: String,
    pub reply_markup: Option<ReplyMarkup>,
}

impl Encode for AudioMessage {
    open spec fn wire_members(&self) -> Seq<(Seq<char>, WireValue)> {
        seq![
            ("chat_id"@, WireValue::Int(self.chat_id as int)),
            ("audio"@, WireValue::Str(self.audio@)),
        ] + (match self.reply_markup {
            Option::None => Seq::empty(),
            Option::Some(rm) => seq![("reply_markup"@, WireValue::Obj(rm.wire_members()))],
        })
    }

    fn to_json(&self) -> (s: String) {
        let mut w = ObjectWriter::begin();
        w.field_i64("chat_id", self.chat_id);
        w.field_str("audio", self.audio.as_str());
        match &self.reply_markup {
            Option::Some(rm) => {
                let sub = rm.to_json();
                w.field_sub(
                    "reply_markup",
                    sub.as_str(),
                    Ghost(WireValue::Obj(rm.wire_members())),
                );
            },
            Option::None => {},
        }
        proof {
            assert(w.members() =~= self.wire_members());
        }
        w.finish()
    }
}

} // verus!
