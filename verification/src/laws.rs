//! The laws the serializer obeys, stated over the wire model and proved
//! once for all values.

use vstd::prelude::*;

verus! {

use crate::json::Encode;
use crate::json::WireValue;
use crate::json::has_key;
use crate::json::lemma_contains_append;
use crate::json::lemma_has_key_append;
use crate::json::lemma_opt_bool_member_key;
use crate::json::lemma_opt_i32_member_key;
use crate::json::lemma_opt_i64_member_key;
use crate::json::lemma_opt_str_member_key;
use crate::json::lemma_opt_u16_member_key;
use crate::json::opt_bool_member;
use crate::json::opt_i32_member;
use crate::json::opt_i64_member;
use crate::json::opt_str_member;
use crate::json::opt_u16_member;
use crate::json::rendered;
use crate::request::AnswerInlineQuery;
use crate::request::Audio;
use crate::request::InlineKeyboardButton;
use crate::request::InlineQueryResult;
use crate::request::KeyboardButton;
use crate::request::Message;
use crate::request::ParseMode;
use crate::request::ReplyMarkup;
use crate::request::keyboard_wire;
use crate::request::results_wire;

broadcast use
    lemma_has_key_append,
    lemma_contains_append,
    lemma_opt_str_member_key,
    lemma_opt_bool_member_key,
    lemma_opt_i64_member_key,
    lemma_opt_i32_member_key,
    lemma_opt_u16_member_key;

/// Serialization is deterministic: `Encode::to_json` pins its output down
/// to `rendered` of the value's wire object, so any two serializations of
/// the same value are identical, character for character.
pub proof fn lemma_serialization_deterministic<E: Encode>(v: E, out1: Seq<char>, out2: Seq<char>)
    requires
        out1 == rendered(WireValue::Obj(v.wire_members())),
        out2 == rendered(WireValue::Obj(v.wire_members())),
    ensures
        out1 == out2,
{
}

/// The default-driven suppression of the parse mode: a message whose parse
/// mode is left at the default carries no parse-mode key on the wire, and
/// any other parse mode goes out under its lower-case name.
pub proof fn lemma_parse_mode_policy(m: Message)
    ensures
        m.parse_mode == ParseMode::Plain ==> !has_key(m.wire_members(), "parse_mode"@),
        m.parse_mode != ParseMode::Plain ==> m.wire_members().contains(
            ("parse_mode"@, WireValue::Str(m.parse_mode.wire_name())),
        ),
        m.parse_mode == ParseMode::Markdown ==> m.wire_members().contains(
            ("parse_mode"@, WireValue::Str("markdown"@)),
        ),
        m.parse_mode == ParseMode::Html ==> m.wire_members().contains(
            ("parse_mode"@, WireValue::Str("html"@)),
        ),
{
    reveal_strlit("chat_id");
    assert("chat_id"@.len() == 7);
    assert("chat_id"@.index(0) == 'c');
    reveal_strlit("text");
    assert("text"@.len() == 4);
    assert("text"@.index(0) == 't');
    reveal_strlit("parse_mode");
    assert("parse_mode"@.len() == 10);
    assert("parse_mode"@.index(0) == 'p');
    reveal_strlit("reply_markup");
    assert("reply_markup"@.len() == 12);
    assert("reply_markup"@.index(0) == 'r');
    let ms = m.wire_members();
    if m.parse_mode == ParseMode::Plain {
        match m.reply_markup {
            Option::None => {
                assert(ms =~= seq![
                    ("chat_id"@, WireValue::Int(m.chat_id as int)),
                    ("text"@, WireValue::Str(m.text@)),
                ]);
                assert(ms[0].0 == "chat_id"@);
                assert(ms[1].0 == "text"@);
                assert forall|i: int| 0 <= i < ms.len() implies ms[i].0 != "parse_mode"@ by {
                    assert(i == 0 || i == 1);
                }
            },
            Option::Some(rm) => {
                assert(ms =~= seq![
                    ("chat_id"@, WireValue::Int(m.chat_id as int)),
                    ("text"@, WireValue::Str(m.text@)),
                    ("reply_markup"@, WireValue::Obj(rm.wire_members())),
                ]);
                assert(ms[0].0 == "chat_id"@);
                assert(ms[1].0 == "text"@);
                assert(ms[2].0 == "reply_markup"@);
                assert forall|i: int| 0 <= i < ms.len() implies ms[i].0 != "parse_mode"@ by {
                    assert(i == 0 || i == 1 || i == 2);
                }
            },
        }
    } else {
        assert(ms[2] == ("parse_mode"@, WireValue::Str(m.parse_mode.wire_name())));
        assert(ms.contains(("parse_mode"@, WireValue::Str(m.parse_mode.wire_name()))));
    }
}

/// The presence rule for a message's optional reply markup: the wire key
/// exists exactly when the field is set, and then holds that markup's own
/// wire object.
pub proof fn lemma_message_reply_markup(m: Message)
    ensures
        has_key(m.wire_members(), "reply_markup"@) <==> m.reply_markup is Some,
        m.reply_markup matches Some(rm) ==> m.wire_members().contains(
            ("reply_markup"@, WireValue::Obj(rm.wire_members())),
        ),
{
    reveal_strlit("chat_id");
    assert("chat_id"@.len() == 7);
    assert("chat_id"@.index(0) == 'c');
    reveal_strlit("text");
    assert("text"@.len() == 4);
    assert("text"@.index(0) == 't');
    reveal_strlit("parse_mode");
    assert("parse_mode"@.len() == 10);
    assert("parse_mode"@.index(0) == 'p');
    reveal_strlit("reply_markup");
    assert("reply_markup"@.len() == 12);
    assert("reply_markup"@.index(0) == 'r');
    let ms = m.wire_members();
    let withmode = !(m.parse_mode == ParseMode::Plain);
    match m.reply_markup {
        Option::Some(rm) => {
            let i: int = if withmode {
                3
            } else {
                2
            };
            assert(ms[i] == ("reply_markup"@, WireValue::Obj(rm.wire_members())));
            assert(ms.contains(("reply_markup"@, WireValue::Obj(rm.wire_members()))));
            assert(has_key(ms, "reply_markup"@));
        },
        Option::None => {
            if withmode {
                assert(ms[0].0 == "chat_id"@);
                assert(ms[1].0 == "text"@);
                assert(ms[2].0 == "parse_mode"@);
                assert(ms.len() == 3);
                assert forall|i: int| 0 <= i < ms.len() implies ms[i].0 != "reply_markup"@ by {
                    assert(i == 0 || i == 1 || i == 2);
                }
            } else {
                assert(ms[0].0 == "chat_id"@);
                assert(ms[1].0 == "text"@);
                assert(ms.len() == 2);
                assert forall|i: int| 0 <= i < ms.len() implies ms[i].0 != "reply_markup"@ by {
                    assert(i == 0 || i == 1);
                }
            }
        },
    }
}

/// No cross-contamination between reply-markup alternatives: whatever
/// alternative a value holds, its wire object's keys all belong to that one
/// alternative's field set.
pub proof fn lemma_reply_markup_key_sets(v: ReplyMarkup)
    ensures
        v matches ReplyMarkup::InlineKeyboardMarkup { .. } ==> forall|k: Seq<char>|
            #[trigger] has_key(v.wire_members(), k) ==> k == "inline_keyboard"@,
        v matches ReplyMarkup::ReplyKeyboardMarkup { .. } ==> forall|k: Seq<char>|
            #[trigger] has_key(v.wire_members(), k) ==> (k == "keyboard"@ || k
                == "resize_keyboard"@ || k == "one_time_keyboard"@ || k == "selective"@),
        v matches ReplyMarkup::ReplyKeyboardRemove { .. } ==> forall|k: Seq<char>|
            #[trigger] has_key(v.wire_members(), k) ==> (k == "remove_keyboard"@ || k
                == "selective"@),
        v matches ReplyMarkup::ForceReply { .. } ==> forall|k: Seq<char>|
            #[trigger] has_key(v.wire_members(), k) ==> (k == "force_reply"@ || k
                == "selective"@),
{
    let ms = v.wire_members();
    match v {
        ReplyMarkup::InlineKeyboardMarkup { inline_keyboard } => {
            assert forall|k: Seq<char>| #[trigger] has_key(ms, k) implies k
                == "inline_keyboard"@ by {
                let i = choose|i: int| 0 <= i < ms.len() && ms[i].0 == k;
                assert(i == 0);
                assert(ms[0].0 == "inline_keyboard"@);
            }
        },
        ReplyMarkup::ReplyKeyboardMarkup { keyboard, resize_keyboard, one_time_keyboard, selective } => {
            let base = seq![("keyboard"@, WireValue::Arr(keyboard_wire(keyboard@)))];
            assert(ms == base + opt_bool_member("resize_keyboard"@, resize_keyboard)
                + opt_bool_member("one_time_keyboard"@, one_time_keyboard) + opt_bool_member(
                "selective"@,
                selective,
            ));
            assert forall|k: Seq<char>| #[trigger] has_key(ms, k) implies (k == "keyboard"@ || k
                == "resize_keyboard"@ || k == "one_time_keyboard"@ || k == "selective"@) by {
                if has_key(base, k) {
                    let i = choose|i: int| 0 <= i < base.len() && base[i].0 == k;
                    assert(i == 0);
                    assert(base[0].0 == "keyboard"@);
                }
            }
        },
        ReplyMarkup::ReplyKeyboardRemove { remove_keyboard, selective } => {
            let base = seq![("remove_keyboard"@, WireValue::Bool(remove_keyboard))];
            assert(ms == base + opt_bool_member("selective"@, selective));
            assert forall|k: Seq<char>| #[trigger] has_key(ms, k) implies (k == "remove_keyboard"@
                || k == "selective"@) by {
                if has_key(base, k) {
                    let i = choose|i: int| 0 <= i < base.len() && base[i].0 == k;
                    assert(i == 0);
                    assert(base[0].0 == "remove_keyboard"@);
                }
            }
        },
        ReplyMarkup::ForceReply { force_reply, selective } => {
            let base = seq![("force_reply"@, WireValue::Bool(force_reply))];
            assert(ms == base + opt_bool_member("selective"@, selective));
            assert forall|k: Seq<char>| #[trigger] has_key(ms, k) implies (k == "force_reply"@ || k
                == "selective"@) by {
                if has_key(base, k) {
                    let i = choose|i: int| 0 <= i < base.len() && base[i].0 == k;
                    assert(i == 0);
                    assert(base[0].0 == "force_reply"@);
                }
            }
        },
    }
}

/// The presence rules for the reply-keyboard alternative's optional flags,
/// and the values they carry when set.
pub proof fn lemma_reply_keyboard_flags(v: ReplyMarkup)
    requires
        v matches ReplyMarkup::ReplyKeyboardMarkup { .. },
    ensures
        v matches ReplyMarkup::ReplyKeyboardMarkup { resize_keyboard, one_time_keyboard, selective, .. }
            ==> {
            &&& (has_key(v.wire_members(), "resize_keyboard"@) <==> resize_keyboard is Some)
            &&& (has_key(v.wire_members(), "one_time_keyboard"@) <==> one_time_keyboard is Some)
            &&& (has_key(v.wire_members(), "selective"@) <==> selective is Some)
            &&& (resize_keyboard matches Some(b) ==> v.wire_members().contains(
                ("resize_keyboard"@, WireValue::Bool(b)),
            ))
            &&& (one_time_keyboard matches Some(b) ==> v.wire_members().contains(
                ("one_time_keyboard"@, WireValue::Bool(b)),
            ))
            &&& (selective matches Some(b) ==> v.wire_members().contains(
                ("selective"@, WireValue::Bool(b)),
            ))
        },
{
    reveal_strlit("keyboard");
    assert("keyboard"@.len() == 8);
    assert("keyboard"@.index(0) == 'k');
    reveal_strlit("resize_keyboard");
    assert("resize_keyboard"@.len() == 15);
    assert("resize_keyboard"@.index(0) == 'r');
    reveal_strlit("one_time_keyboard");
    assert("one_time_keyboard"@.len() == 17);
    assert("one_time_keyboard"@.index(0) == 'o');
    reveal_strlit("selective");
    assert("selective"@.len() == 9);
    assert("selective"@.index(0) == 's');
    let ms = v.wire_members();
    if let ReplyMarkup::ReplyKeyboardMarkup { keyboard, resize_keyboard, one_time_keyboard, selective } =
        v {
        let base = seq![("keyboard"@, WireValue::Arr(keyboard_wire(keyboard@)))];
        let c1 = opt_bool_member("resize_keyboard"@, resize_keyboard);
        let c2 = opt_bool_member("one_time_keyboard"@, one_time_keyboard);
        let c3 = opt_bool_member("selective"@, selective);
        let chain = base + c1 + c2 + c3;
        assert(ms == chain);
        assert(base[0].0 == "keyboard"@);
        assert forall|k: Seq<char>| #[trigger] has_key(base, k) implies k == "keyboard"@ by {
            let i = choose|i: int| 0 <= i < base.len() && base[i].0 == k;
            assert(i == 0);
        }
        assert(has_key(ms, "resize_keyboard"@) == has_key(chain, "resize_keyboard"@));
        assert(has_key(ms, "one_time_keyboard"@) == has_key(chain, "one_time_keyboard"@));
        assert(has_key(ms, "selective"@) == has_key(chain, "selective"@));
        if let Some(b) = resize_keyboard {
            lemma_opt_bool_member_key("resize_keyboard"@, resize_keyboard, "resize_keyboard"@);
            assert(ms.contains(("resize_keyboard"@, WireValue::Bool(b))) == chain.contains(
                ("resize_keyboard"@, WireValue::Bool(b)),
            ));
        }
        if let Some(b) = one_time_keyboard {
            lemma_opt_bool_member_key("one_time_keyboard"@, one_time_keyboard, "one_time_keyboard"@);
            assert(ms.contains(("one_time_keyboard"@, WireValue::Bool(b))) == chain.contains(
                ("one_time_keyboard"@, WireValue::Bool(b)),
            ));
        }
        if let Some(b) = selective {
            lemma_opt_bool_member_key("selective"@, selective, "selective"@);
            assert(ms.contains(("selective"@, WireValue::Bool(b))) == chain.contains(
                ("selective"@, WireValue::Bool(b)),
            ));
        }
    }
}

/// The presence rules for an article result's optional fields, and its
/// discriminator: the wire object always carries `type` = `article`, and
/// each optional key exists exactly when the field is set, holding the
/// value given.
pub proof fn lemma_article_optional_fields(r: InlineQueryResult)
    ensures
        r.wire_members()[0] == ("type"@, WireValue::Str("article"@)),
        r matches InlineQueryResult::Article { description, thumb_url, thumb_width, thumb_height, .. }
            ==> {
            &&& (has_key(r.wire_members(), "description"@) <==> description is Some)
            &&& (has_key(r.wire_members(), "thumb_url"@) <==> thumb_url is Some)
            &&& (has_key(r.wire_members(), "thumb_width"@) <==> thumb_width is Some)
            &&& (has_key(r.wire_members(), "thumb_height"@) <==> thumb_height is Some)
            &&& (description matches Some(d) ==> r.wire_members().contains(
                ("description"@, WireValue::Str(d@)),
            ))
            &&& (thumb_url matches Some(u) ==> r.wire_members().contains(
                ("thumb_url"@, WireValue::Str(u@)),
            ))
            &&& (thumb_width matches Some(n) ==> r.wire_members().contains(
                ("thumb_width"@, WireValue::Int(n as int)),
            ))
            &&& (thumb_height matches Some(n) ==> r.wire_members().contains(
                ("thumb_height"@, WireValue::Int(n as int)),
            ))
        },
{
    reveal_strlit("type");
    assert("type"@.len() == 4);
    assert("type"@.index(0) == 't');
    reveal_strlit("id");
    assert("id"@.len() == 2);
    assert("id"@.index(0) == 'i');
    reveal_strlit("title");
    assert("title"@.len() == 5);
    assert("title"@.index(0) == 't');
    reveal_strlit("input_message_content");
    assert("input_message_content"@.len() == 21);
    assert("input_message_content"@.index(0) == 'i');
    reveal_strlit("description");
    assert("description"@.len() == 11);
    assert("description"@.index(0) == 'd');
    reveal_strlit("thumb_url");
    assert("thumb_url"@.len() == 9);
    assert("thumb_url"@.index(0) == 't');
    reveal_strlit("thumb_width");
    assert("thumb_width"@.len() == 11);
    assert("thumb_width"@.index(0) == 't');
    reveal_strlit("thumb_height");
    assert("thumb_height"@.len() == 12);
    assert("thumb_height"@.index(0) == 't');
    let ms = r.wire_members();
    if let InlineQueryResult::Article {
        id,
        title,
        input_message_content,
        description,
        thumb_url,
        thumb_width,
        thumb_height,
    } = r {
        let base = seq![
            ("type"@, WireValue::Str("article"@)),
            ("id"@, WireValue::Str(id@)),
            ("title"@, WireValue::Str(title@)),
            ("input_message_content"@, WireValue::Obj(input_message_content.wire_members())),
        ];
        let c1 = opt_str_member("description"@, description);
        let c2 = opt_str_member("thumb_url"@, thumb_url);
        let c3 = opt_u16_member("thumb_width"@, thumb_width);
        let c4 = opt_u16_member("thumb_height"@, thumb_height);
        let chain = base + c1 + c2 + c3 + c4;
        assert(ms == chain);
        assert(has_key(ms, "description"@) == has_key(chain, "description"@));
        assert(has_key(ms, "thumb_url"@) == has_key(chain, "thumb_url"@));
        assert(has_key(ms, "thumb_width"@) == has_key(chain, "thumb_width"@));
        assert(has_key(ms, "thumb_height"@) == has_key(chain, "thumb_height"@));
        assert(base[0].0 == "type"@);
        assert(base[1].0 == "id"@);
        assert(base[2].0 == "title"@);
        assert(base[3].0 == "input_message_content"@);
        assert(ms[0] == ("type"@, WireValue::Str("article"@)));
        assert forall|k: Seq<char>| #[trigger] has_key(base, k) implies (k == "type"@ || k == "id"@
            || k == "title"@ || k == "input_message_content"@) by {
            let i = choose|i: int| 0 <= i < base.len() && base[i].0 == k;
            assert(i == 0 || i == 1 || i == 2 || i == 3);
        }
        if let Some(d) = description {
            lemma_opt_str_member_key("description"@, description, "description"@);
            assert(ms.contains(("description"@, WireValue::Str(d@))) == chain.contains(
                ("description"@, WireValue::Str(d@)),
            ));
        }
        if let Some(u) = thumb_url {
            lemma_opt_str_member_key("thumb_url"@, thumb_url, "thumb_url"@);
            assert(ms.contains(("thumb_url"@, WireValue::Str(u@))) == chain.contains(
                ("thumb_url"@, WireValue::Str(u@)),
            ));
        }
        if let Some(n) = thumb_width {
            lemma_opt_u16_member_key("thumb_width"@, thumb_width, "thumb_width"@);
            assert(ms.contains(("thumb_width"@, WireValue::Int(n as int))) == chain.contains(
                ("thumb_width"@, WireValue::Int(n as int)),
            ));
        }
        if let Some(n) = thumb_height {
            lemma_opt_u16_member_key("thumb_height"@, thumb_height, "thumb_height"@);
            assert(ms.contains(("thumb_height"@, WireValue::Int(n as int))) == chain.contains(
                ("thumb_height"@, WireValue::Int(n as int)),
            ));
        }
    }
}

/// The presence rules for the optional tuning fields of an inline-query
/// answer.
pub proof fn lemma_answer_optional_fields<R: Encode>(a: AnswerInlineQuery<R>)
    ensures
        has_key(a.wire_members(), "cache_time"@) <==> a.cache_time is Some,
        has_key(a.wire_members(), "is_personal"@) <==> a.is_personal is Some,
        has_key(a.wire_members(), "switch_pm_text"@) <==> a.switch_pm_text is Some,
        has_key(a.wire_members(), "switch_pm_parameter"@) <==> a.switch_pm_parameter is Some,
        a.cache_time matches Some(n) ==> a.wire_members().contains(
            ("cache_time"@, WireValue::Int(n as int)),
        ),
        a.is_personal matches Some(b) ==> a.wire_members().contains(
            ("is_personal"@, WireValue::Bool(b)),
        ),
        a.switch_pm_text matches Some(t) ==> a.wire_members().contains(
            ("switch_pm_text"@, WireValue::Str(t@)),
        ),
        a.switch_pm_parameter matches Some(t) ==> a.wire_members().contains(
            ("switch_pm_parameter"@, WireValue::Str(t@)),
        ),
{
    reveal_strlit("inline_query_id");
    assert("inline_query_id"@.len() == 15);
    assert("inline_query_id"@.index(0) == 'i');
    reveal_strlit("results");
    assert("results"@.len() == 7);
    assert("results"@.index(0) == 'r');
    reveal_strlit("cache_time");
    assert("cache_time"@.len() == 10);
    assert("cache_time"@.index(0) == 'c');
    reveal_strlit("is_personal");
    assert("is_personal"@.len() == 11);
    assert("is_personal"@.index(0) == 'i');
    reveal_strlit("next_offset");
    assert("next_offset"@.len() == 11);
    assert("next_offset"@.index(0) == 'n');
    reveal_strlit("switch_pm_text");
    assert("switch_pm_text"@.len() == 14);
    assert("switch_pm_text"@.index(0) == 's');
    reveal_strlit("switch_pm_parameter");
    assert("switch_pm_parameter"@.len() == 19);
    assert("switch_pm_parameter"@.index(0) == 's');
    let ms = a.wire_members();
    let base = seq![
        ("inline_query_id"@, WireValue::Str(a.inline_query_id@)),
        ("results"@, WireValue::Arr(results_wire(a.results@))),
    ];
    let mid = seq![("next_offset"@, WireValue::Str(a.next_offset@))];
    let c1 = opt_i64_member("cache_time"@, a.cache_time);
    let c2 = opt_bool_member("is_personal"@, a.is_personal);
    let c4 = opt_str_member("switch_pm_text"@, a.switch_pm_text);
    let c5 = opt_str_member("switch_pm_parameter"@, a.switch_pm_parameter);
    let chain = base + c1 + c2 + mid + c4 + c5;
    assert(ms == chain);
    assert(has_key(ms, "cache_time"@) == has_key(chain, "cache_time"@));
    assert(has_key(ms, "is_personal"@) == has_key(chain, "is_personal"@));
    assert(has_key(ms, "switch_pm_text"@) == has_key(chain, "switch_pm_text"@));
    assert(has_key(ms, "switch_pm_parameter"@) == has_key(chain, "switch_pm_parameter"@));
    assert(base[0].0 == "inline_query_id"@);
    assert(base[1].0 == "results"@);
    assert(mid[0].0 == "next_offset"@);
    assert forall|k: Seq<char>| #[trigger] has_key(base, k) implies (k == "inline_query_id"@ || k
        == "results"@) by {
        let i = choose|i: int| 0 <= i < base.len() && base[i].0 == k;
        assert(i == 0 || i == 1);
    }
    assert forall|k: Seq<char>| #[trigger] has_key(mid, k) implies k == "next_offset"@ by {
        let i = choose|i: int| 0 <= i < mid.len() && mid[i].0 == k;
        assert(i == 0);
    }
    if let Some(n) = a.cache_time {
        lemma_opt_i64_member_key("cache_time"@, a.cache_time, "cache_time"@);
        assert(ms.contains(("cache_time"@, WireValue::Int(n as int))) == chain.contains(
            ("cache_time"@, WireValue::Int(n as int)),
        ));
    }
    if let Some(b) = a.is_personal {
        lemma_opt_bool_member_key("is_personal"@, a.is_personal, "is_personal"@);
        assert(ms.contains(("is_personal"@, WireValue::Bool(b))) == chain.contains(
            ("is_personal"@, WireValue::Bool(b)),
        ));
    }
    if let Some(t) = a.switch_pm_text {
        lemma_opt_str_member_key("switch_pm_text"@, a.switch_pm_text, "switch_pm_text"@);
        assert(ms.contains(("switch_pm_text"@, WireValue::Str(t@))) == chain.contains(
            ("switch_pm_text"@, WireValue::Str(t@)),
        ));
    }
    if let Some(t) = a.switch_pm_parameter {
        lemma_opt_str_member_key("switch_pm_parameter"@, a.switch_pm_parameter, "switch_pm_parameter"@);
        assert(ms.contains(("switch_pm_parameter"@, WireValue::Str(t@))) == chain.contains(
            ("switch_pm_parameter"@, WireValue::Str(t@)),
        ));
    }
}

/// The presence rules for the optional fields of the two button kinds and
/// of an audio attachment.
pub proof fn lemma_button_optional_fields(ib: InlineKeyboardButton, kb: KeyboardButton, au: Audio)
    ensures
        has_key(ib.wire_members(), "url"@) <==> ib.url is Some,
        has_key(ib.wire_members(), "callback_data"@) <==> ib.callback_data is Some,
        has_key(ib.wire_members(), "switch_inline_query"@) <==> ib.switch_inline_query is Some,
        has_key(ib.wire_members(), "switch_inline_query_current_chat"@)
            <==> ib.switch_inline_query_current_chat is Some,
        has_key(ib.wire_members(), "pay"@) <==> ib.pay is Some,
        has_key(kb.wire_members(), "request_contact"@) <==> kb.request_contact is Some,
        has_key(kb.wire_members(), "request_location"@) <==> kb.request_location is Some,
        has_key(au.wire_members(), "performer"@) <==> au.performer is Some,
        has_key(au.wire_members(), "title"@) <==> au.title is Some,
        has_key(au.wire_members(), "mime_type"@) <==> au.mime_type is Some,
        has_key(au.wire_members(), "file_size"@) <==> au.file_size is Some,
        ib.url matches Some(v) ==> ib.wire_members().contains(("url"@, WireValue::Str(v@))),
        ib.callback_data matches Some(v) ==> ib.wire_members().contains(
            ("callback_data"@, WireValue::Str(v@)),
        ),
        ib.switch_inline_query matches Some(v) ==> ib.wire_members().contains(
            ("switch_inline_query"@, WireValue::Str(v@)),
        ),
        ib.switch_inline_query_current_chat matches Some(v) ==> ib.wire_members().contains(
            ("switch_inline_query_current_chat"@, WireValue::Str(v@)),
        ),
        ib.pay matches Some(b) ==> ib.wire_members().contains(("pay"@, WireValue::Bool(b))),
        kb.request_contact matches Some(b) ==> kb.wire_members().contains(
            ("request_contact"@, WireValue::Bool(b)),
        ),
        kb.request_location matches Some(b) ==> kb.wire_members().contains(
            ("request_location"@, WireValue::Bool(b)),
        ),
        au.performer matches Some(v) ==> au.wire_members().contains(
            ("performer"@, WireValue::Str(v@)),
        ),
        au.title matches Some(v) ==> au.wire_members().contains(("title"@, WireValue::Str(v@))),
        au.mime_type matches Some(v) ==> au.wire_members().contains(
            ("mime_type"@, WireValue::Str(v@)),
        ),
        au.file_size matches Some(n) ==> au.wire_members().contains(
            ("file_size"@, WireValue::Int(n as int)),
        ),
{
    reveal_strlit("text");
    assert("text"@.len() == 4);
    assert("text"@.index(0) == 't');
    reveal_strlit("url");
    assert("url"@.len() == 3);
    assert("url"@.index(0) == 'u');
    reveal_strlit("callback_data");
    assert("callback_data"@.len() == 13);
    assert("callback_data"@.index(0) == 'c');
    reveal_strlit("switch_inline_query");
    assert("switch_inline_query"@.len() == 19);
    assert("switch_inline_query"@.index(0) == 's');
    reveal_strlit("switch_inline_query_current_chat");
    assert("switch_inline_query_current_chat"@.len() == 32);
    assert("switch_inline_query_current_chat"@.index(0) == 's');
    reveal_strlit("pay");
    assert("pay"@.len() == 3);
    assert("pay"@.index(0) == 'p');
    reveal_strlit("request_contact");
    assert("request_contact"@.len() == 15);
    assert("request_contact"@.index(0) == 'r');
    reveal_strlit("request_location");
    assert("request_location"@.len() == 16);
    assert("request_location"@.index(0) == 'r');
    reveal_strlit("file_id");
    assert("file_id"@.len() == 7);
    assert("file_id"@.index(0) == 'f');
    reveal_strlit("duration");
    assert("duration"@.len() == 8);
    assert("duration"@.index(0) == 'd');
    reveal_strlit("performer");
    assert("performer"@.len() == 9);
    assert("performer"@.index(0) == 'p');
    reveal_strlit("title");
    assert("title"@.len() == 5);
    assert("title"@.index(0) == 't');
    reveal_strlit("mime_type");
    assert("mime_type"@.len() == 9);
    assert("mime_type"@.index(0) == 'm');
    reveal_strlit("file_size");
    assert("file_size"@.len() == 9);
    assert("file_size"@.index(0) == 'f');
    let ims = ib.wire_members();
    let ibase = seq![("text"@, WireValue::Str(ib.text@))];
    let i1 = opt_str_member("url"@, ib.url);
    let i2 = opt_str_member("callback_data"@, ib.callback_data);
    let i3 = opt_str_member("switch_inline_query"@, ib.switch_inline_query);
    let i4 = opt_str_member("switch_inline_query_current_chat"@, ib.switch_inline_query_current_chat);
    let i5 = opt_bool_member("pay"@, ib.pay);
    let ichain = ibase + i1 + i2 + i3 + i4 + i5;
    assert(ims == ichain);
    assert(has_key(ims, "url"@) == has_key(ichain, "url"@));
    assert(has_key(ims, "callback_data"@) == has_key(ichain, "callback_data"@));
    assert(has_key(ims, "switch_inline_query"@) == has_key(ichain, "switch_inline_query"@));
    assert(has_key(ims, "switch_inline_query_current_chat"@) == has_key(
        ichain,
        "switch_inline_query_current_chat"@,
    ));
    assert(has_key(ims, "pay"@) == has_key(ichain, "pay"@));
    assert(ibase[0].0 == "text"@);
    assert forall|k: Seq<char>| #[trigger] has_key(ibase, k) implies k == "text"@ by {
        let i = choose|i: int| 0 <= i < ibase.len() && ibase[i].0 == k;
        assert(i == 0);
    }
    if let Some(v) = ib.url {
        lemma_opt_str_member_key("url"@, ib.url, "url"@);
        assert(ims.contains(("url"@, WireValue::Str(v@))) == ichain.contains(
            ("url"@, WireValue::Str(v@)),
        ));
    }
    if let Some(v) = ib.callback_data {
        lemma_opt_str_member_key("callback_data"@, ib.callback_data, "callback_data"@);
        assert(ims.contains(("callback_data"@, WireValue::Str(v@))) == ichain.contains(
            ("callback_data"@, WireValue::Str(v@)),
        ));
    }
    if let Some(v) = ib.switch_inline_query {
        lemma_opt_str_member_key("switch_inline_query"@, ib.switch_inline_query, "switch_inline_query"@);
        assert(ims.contains(("switch_inline_query"@, WireValue::Str(v@))) == ichain.contains(
            ("switch_inline_query"@, WireValue::Str(v@)),
        ));
    }
    if let Some(v) = ib.switch_inline_query_current_chat {
        lemma_opt_str_member_key(
            "switch_inline_query_current_chat"@,
            ib.switch_inline_query_current_chat,
            "switch_inline_query_current_chat"@,
        );
        assert(ims.contains(("switch_inline_query_current_chat"@, WireValue::Str(v@)))
            == ichain.contains(("switch_inline_query_current_chat"@, WireValue::Str(v@))));
    }
    if let Some(b) = ib.pay {
        lemma_opt_bool_member_key("pay"@, ib.pay, "pay"@);
        assert(ims.contains(("pay"@, WireValue::Bool(b))) == ichain.contains(
            ("pay"@, WireValue::Bool(b)),
        ));
    }
    let kms = kb.wire_members();
    let kbase = seq![("text"@, WireValue::Str(kb.text@))];
    let k1 = opt_bool_member("request_contact"@, kb.request_contact);
    let k2 = opt_bool_member("request_location"@, kb.request_location);
    let kchain = kbase + k1 + k2;
    assert(kms == kchain);
    assert(has_key(kms, "request_contact"@) == has_key(kchain, "request_contact"@));
    assert(has_key(kms, "request_location"@) == has_key(kchain, "request_location"@));
    assert(kbase[0].0 == "text"@);
    assert forall|k: Seq<char>| #[trigger] has_key(kbase, k) implies k == "text"@ by {
        let i = choose|i: int| 0 <= i < kbase.len() && kbase[i].0 == k;
        assert(i == 0);
    }
    if let Some(b) = kb.request_contact {
        lemma_opt_bool_member_key("request_contact"@, kb.request_contact, "request_contact"@);
        assert(kms.contains(("request_contact"@, WireValue::Bool(b))) == kchain.contains(
            ("request_contact"@, WireValue::Bool(b)),
        ));
    }
    if let Some(b) = kb.request_location {
        lemma_opt_bool_member_key("request_location"@, kb.request_location, "request_location"@);
        assert(kms.contains(("request_location"@, WireValue::Bool(b))) == kchain.contains(
            ("request_location"@, WireValue::Bool(b)),
        ));
    }
    let ams = au.wire_members();
    let abase = seq![
        ("file_id"@, WireValue::Str(au.file_id@)),
        ("duration"@, WireValue::Int(au.duration as int)),
    ];
    let a1 = opt_str_member("performer"@, au.performer);
    let a2 = opt_str_member("title"@, au.title);
    let a3 = opt_str_member("mime_type"@, au.mime_type);
    let a4 = opt_i32_member("file_size"@, au.file_size);
    let achain = abase + a1 + a2 + a3 + a4;
    assert(ams == achain);
    assert(has_key(ams, "performer"@) == has_key(achain, "performer"@));
    assert(has_key(ams, "title"@) == has_key(achain, "title"@));
    assert(has_key(ams, "mime_type"@) == has_key(achain, "mime_type"@));
    assert(has_key(ams, "file_size"@) == has_key(achain, "file_size"@));
    assert(abase[0].0 == "file_id"@);
    assert(abase[1].0 == "duration"@);
    assert forall|k: Seq<char>| #[trigger] has_key(abase, k) implies (k == "file_id"@ || k
        == "duration"@) by {
        let i = choose|i: int| 0 <= i < abase.len() && abase[i].0 == k;
        assert(i == 0 || i == 1);
    }
    if let Some(v) = au.performer {
        lemma_opt_str_member_key("performer"@, au.performer, "performer"@);
        assert(ams.contains(("performer"@, WireValue::Str(v@))) == achain.contains(
            ("performer"@, WireValue::Str(v@)),
        ));
    }
    if let Some(v) = au.title {
        lemma_opt_str_member_key("title"@, au.title, "title"@);
        assert(ams.contains(("title"@, WireValue::Str(v@))) == achain.contains(
            ("title"@, WireValue::Str(v@)),
        ));
    }
    if let Some(v) = au.mime_type {
        lemma_opt_str_member_key("mime_type"@, au.mime_type, "mime_type"@);
        assert(ams.contains(("mime_type"@, WireValue::Str(v@))) == achain.contains(
            ("mime_type"@, WireValue::Str(v@)),
        ));
    }
    if let Some(n) = au.file_size {
        lemma_opt_i32_member_key("file_size"@, au.file_size, "file_size"@);
        assert(ams.contains(("file_size"@, WireValue::Int(n as int))) == achain.contains(
            ("file_size"@, WireValue::Int(n as int)),
        ));
    }
}

/// Order preservation: the serialized results sequence of an inline-query
/// answer lists one wire object per result, in exactly the order the
/// results were given.
pub proof fn lemma_results_order<R: Encode>(a: AnswerInlineQuery<R>)
    ensures
        a.wire_members().contains(("results"@, WireValue::Arr(results_wire(a.results@)))),
        results_wire(a.results@).len() == a.results@.len(),
        forall|i: int| 0 <= i < a.results@.len() ==> results_wire(a.results@)[i]
            == WireValue::Obj(a.results@[i].wire_members()),
{
    let ms = a.wire_members();
    assert(ms[1] == ("results"@, WireValue::Arr(results_wire(a.results@))));
    assert(ms.contains(("results"@, WireValue::Arr(results_wire(a.results@)))));
}

} // verus!
