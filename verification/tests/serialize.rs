use botwire::AnswerInlineQuery;
use botwire::Encode;
use botwire::InlineQueryResult;
use botwire::Message;
use botwire::ParseMode;

#[test]
fn message_minimal_two_keys() {
    let m = Message::new(42, "hi".to_string());
    assert_eq!(m.to_json(), "{\"chat_id\":42,\"text\":\"hi\"}");
}

#[test]
fn message_with_keyboard_remover_wire() {
    let m = Message::with_keyboard_remover(42, "bye".to_string());
    assert_eq!(
        m.to_json(),
        "{\"chat_id\":42,\"text\":\"bye\",\"reply_markup\":{\"remove_keyboard\":true}}"
    );
}

#[test]
fn message_markdown_parse_mode() {
    let m = Message::new(7, "x".to_string()).parse_mode(ParseMode::Markdown);
    assert_eq!(
        m.to_json(),
        "{\"chat_id\":7,\"text\":\"x\",\"parse_mode\":\"markdown\"}"
    );
}

#[test]
fn message_html_parse_mode() {
    let m = Message::new(7, "x".to_string()).parse_mode(ParseMode::Html);
    assert_eq!(m.to_json(), "{\"chat_id\":7,\"text\":\"x\",\"parse_mode\":\"html\"}");
}

#[test]
fn message_plain_parse_mode_omitted() {
    let m = Message::new(7, "x".to_string()).parse_mode(ParseMode::Plain);
    assert_eq!(m.to_json(), "{\"chat_id\":7,\"text\":\"x\"}");
    assert!(!m.to_json().contains("parse_mode"));
}

#[test]
fn message_text_escaping() {
    let m = Message::new(1, "a\"b\\c\nd\re\tf\u{1}g".to_string());
    assert_eq!(
        m.to_json(),
        "{\"chat_id\":1,\"text\":\"a\\\"b\\\\c\\nd\\re\\tf\\u0001g\"}"
    );
}

#[test]
fn message_negative_chat_id() {
    let m = Message::new(-5, "n".to_string());
    assert_eq!(m.to_json(), "{\"chat_id\":-5,\"text\":\"n\"}");
}

#[test]
fn message_extreme_chat_ids() {
    let lo = Message::new(i64::MIN, "a".to_string());
    assert_eq!(
        lo.to_json(),
        "{\"chat_id\":-9223372036854775808,\"text\":\"a\"}"
    );
    let hi = Message::new(i64::MAX, "b".to_string());
    assert_eq!(hi.to_json(), "{\"chat_id\":9223372036854775807,\"text\":\"b\"}");
}

#[test]
fn message_unicode_text_kept() {
    let m = Message::new(3, "héllo ✓".to_string());
    assert_eq!(m.to_json(), "{\"chat_id\":3,\"text\":\"héllo ✓\"}");
}

#[test]
fn serialization_is_deterministic() {
    let r = InlineQueryResult::article(
        "id1".to_string(),
        "title".to_string(),
        "text".to_string(),
        "desc".to_string(),
        "http://t".to_string(),
        20,
        10,
    );
    let a = AnswerInlineQuery::new("q".to_string(), vec![r], "off".to_string());
    let first = a.to_json();
    let second = a.to_json();
    assert_eq!(first, second);
    let m = Message::with_keyboard_remover(9, "again".to_string());
    assert_eq!(m.to_json(), m.to_json());
}

#[test]
fn article_full_wire() {
    let r = InlineQueryResult::article(
        "a".to_string(),
        "t".to_string(),
        "m".to_string(),
        "d".to_string(),
        "u".to_string(),
        20,
        10,
    );
    assert_eq!(
        r.to_json(),
        "{\"type\":\"article\",\"id\":\"a\",\"title\":\"t\",\
         \"input_message_content\":{\"message_text\":\"m\"},\
         \"description\":\"d\",\"thumb_url\":\"u\",\"thumb_width\":10,\"thumb_height\":20}"
    );
}

#[test]
fn article_discriminator_is_lower_case() {
    let r = InlineQueryResult::article(
        "i".to_string(),
        "t".to_string(),
        "m".to_string(),
        "d".to_string(),
        "u".to_string(),
        1,
        1,
    );
    assert!(r.to_json().starts_with("{\"type\":\"article\""));
}

#[test]
fn answer_minimal_no_optional_keys() {
    let a: AnswerInlineQuery<InlineQueryResult> =
        AnswerInlineQuery::new("q7".to_string(), Vec::new(), "".to_string());
    assert_eq!(
        a.to_json(),
        "{\"inline_query_id\":\"q7\",\"results\":[],\"next_offset\":\"\"}"
    );
    assert!(!a.to_json().contains("cache_time"));
    assert!(!a.to_json().contains("is_personal"));
    assert!(!a.to_json().contains("switch_pm_text"));
    assert!(!a.to_json().contains("switch_pm_parameter"));
}

#[test]
fn answer_optional_fields_present_when_set() {
    let mut a: AnswerInlineQuery<InlineQueryResult> =
        AnswerInlineQuery::new("q".to_string(), Vec::new(), "n".to_string());
    a.cache_time = Some(300);
    a.is_personal = Some(true);
    a.switch_pm_text = Some("go private".to_string());
    a.switch_pm_parameter = Some("start".to_string());
    assert_eq!(
        a.to_json(),
        "{\"inline_query_id\":\"q\",\"results\":[],\"cache_time\":300,\
         \"is_personal\":true,\"next_offset\":\"n\",\
         \"switch_pm_text\":\"go private\",\"switch_pm_parameter\":\"start\"}"
    );
}

#[test]
fn answer_results_keep_order() {
    let mk = |id: &str| {
        InlineQueryResult::article(
            id.to_string(),
            "t".to_string(),
            "m".to_string(),
            "d".to_string(),
            "u".to_string(),
            2,
            1,
        )
    };
    let a = AnswerInlineQuery::new(
        "q".to_string(),
        vec![mk("r1"), mk("r2"), mk("r3")],
        "".to_string(),
    );
    let s = a.to_json();
    let p1 = s.find("\"id\":\"r1\"").unwrap();
    let p2 = s.find("\"id\":\"r2\"").unwrap();
    let p3 = s.find("\"id\":\"r3\"").unwrap();
    assert!(p1 < p2 && p2 < p3);
    let swapped = AnswerInlineQuery::new(
        "q".to_string(),
        vec![mk("r3"), mk("r2"), mk("r1")],
        "".to_string(),
    );
    let t = swapped.to_json();
    let q3 = t.find("\"id\":\"r3\"").unwrap();
    let q2 = t.find("\"id\":\"r2\"").unwrap();
    let q1 = t.find("\"id\":\"r1\"").unwrap();
    assert!(q3 < q2 && q2 < q1);
}

#[test]
fn article_thumb_size_edges() {
    let r = InlineQueryResult::article(
        "i".to_string(),
        "t".to_string(),
        "m".to_string(),
        "d".to_string(),
        "u".to_string(),
        u16::MAX,
        0,
    );
    let s = r.to_json();
    assert!(s.contains("\"thumb_width\":0"));
    assert!(s.contains("\"thumb_height\":65535"));
}

#[test]
fn input_message_content_wire() {
    let c = botwire::InputMessageContent { message_text: "hello".to_string() };
    assert_eq!(c.to_json(), "{\"message_text\":\"hello\"}");
}

#[test]
fn parse_mode_names_and_default() {
    assert_eq!(ParseMode::default(), ParseMode::Plain);
    assert!(ParseMode::Plain.is_plain());
    assert!(!ParseMode::Markdown.is_plain());
    assert_eq!(ParseMode::Markdown.wire_name_str(), "markdown");
    assert_eq!(ParseMode::Html.wire_name_str(), "html");
}
