use botwire::Audio;
use botwire::AudioMessage;
use botwire::Encode;
use botwire::InlineKeyboardButton;
use botwire::KeyboardButton;
use botwire::ReplyMarkup;

#[test]
fn reply_markup_inline_keyboard_wire() {
    let rows = vec![InlineKeyboardButton::default()];
    let m = ReplyMarkup::inline_keyboard_markup(rows);
    assert_eq!(m.to_json(), "{\"inline_keyboard\":[{\"text\":\"\"}]}");
}

#[test]
fn reply_markup_inline_keyboard_empty() {
    let m = ReplyMarkup::inline_keyboard_markup(Vec::new());
    assert_eq!(m.to_json(), "{\"inline_keyboard\":[]}");
}

#[test]
fn reply_markup_reply_keyboard_wire() {
    let rows = vec![KeyboardButton::new("x".to_string()), KeyboardButton::new("y".to_string())];
    let m = ReplyMarkup::reply_keyboard_markup(rows);
    assert_eq!(
        m.to_json(),
        "{\"keyboard\":[[{\"text\":\"x\"},{\"text\":\"y\"}]],\"resize_keyboard\":true}"
    );
}

#[test]
fn reply_markup_remove_wire() {
    let m = ReplyMarkup::reply_keyboard_remove();
    assert_eq!(m.to_json(), "{\"remove_keyboard\":true}");
    assert!(!m.to_json().contains("selective"));
}

#[test]
fn reply_markup_force_reply_wire() {
    let m = ReplyMarkup::ForceReply { force_reply: true, selective: None };
    assert_eq!(m.to_json(), "{\"force_reply\":true}");
    let s = ReplyMarkup::ForceReply { force_reply: true, selective: Some(true) };
    assert_eq!(s.to_json(), "{\"force_reply\":true,\"selective\":true}");
}

#[test]
fn reply_markup_no_cross_contamination() {
    let inline = ReplyMarkup::inline_keyboard_markup(Vec::new()).to_json();
    assert!(!inline.contains("keyboard\":[["));
    assert!(!inline.contains("remove_keyboard"));
    assert!(!inline.contains("force_reply"));
    let remove = ReplyMarkup::reply_keyboard_remove().to_json();
    assert!(!remove.contains("inline_keyboard"));
    assert!(!remove.contains("force_reply"));
    assert!(!remove.contains("resize_keyboard"));
}

#[test]
fn reply_keyboard_all_flags_set() {
    let m = ReplyMarkup::ReplyKeyboardMarkup {
        keyboard: vec![vec![KeyboardButton::new("k".to_string())]],
        resize_keyboard: Some(false),
        one_time_keyboard: Some(true),
        selective: Some(false),
    };
    assert_eq!(
        m.to_json(),
        "{\"keyboard\":[[{\"text\":\"k\"}]],\"resize_keyboard\":false,\
         \"one_time_keyboard\":true,\"selective\":false}"
    );
}

#[test]
fn keyboard_button_new_wire() {
    let b = KeyboardButton::new("press".to_string());
    assert_eq!(b.to_json(), "{\"text\":\"press\"}");
}

#[test]
fn keyboard_button_flags_wire() {
    let b = KeyboardButton {
        text: "p".to_string(),
        request_contact: Some(true),
        request_location: Some(false),
    };
    assert_eq!(
        b.to_json(),
        "{\"text\":\"p\",\"request_contact\":true,\"request_location\":false}"
    );
}

#[test]
fn inline_keyboard_button_actions_wire() {
    let b = InlineKeyboardButton {
        text: "go".to_string(),
        url: Some("http://u".to_string()),
        callback_data: Some("cb".to_string()),
        switch_inline_query: None,
        switch_inline_query_current_chat: None,
        pay: Some(true),
    };
    assert_eq!(
        b.to_json(),
        "{\"text\":\"go\",\"url\":\"http://u\",\"callback_data\":\"cb\",\"pay\":true}"
    );
}

#[test]
fn audio_new_wire() {
    let a = Audio::new("f9".to_string(), 180);
    assert_eq!(a.to_json(), "{\"file_id\":\"f9\",\"duration\":180}");
}

#[test]
fn audio_optional_fields_wire() {
    let a = Audio {
        file_id: "f".to_string(),
        duration: -1,
        performer: Some("p".to_string()),
        title: Some("t".to_string()),
        mime_type: Some("audio/mpeg".to_string()),
        file_size: Some(1024),
    };
    assert_eq!(
        a.to_json(),
        "{\"file_id\":\"f\",\"duration\":-1,\"performer\":\"p\",\"title\":\"t\",\
         \"mime_type\":\"audio/mpeg\",\"file_size\":1024}"
    );
}

#[test]
fn audio_message_wire() {
    let plain = AudioMessage { chat_id: 7, audio: "abc".to_string(), reply_markup: None };
    assert_eq!(plain.to_json(), "{\"chat_id\":7,\"audio\":\"abc\"}");
    let marked = AudioMessage {
        chat_id: 7,
        audio: "abc".to_string(),
        reply_markup: Some(ReplyMarkup::reply_keyboard_remove()),
    };
    assert_eq!(
        marked.to_json(),
        "{\"chat_id\":7,\"audio\":\"abc\",\"reply_markup\":{\"remove_keyboard\":true}}"
    );
}

#[test]
fn audio_numeric_edges() {
    let a = Audio {
        file_id: "f".to_string(),
        duration: i32::MIN,
        performer: None,
        title: None,
        mime_type: None,
        file_size: Some(i32::MAX),
    };
    assert_eq!(
        a.to_json(),
        "{\"file_id\":\"f\",\"duration\":-2147483648,\"file_size\":2147483647}"
    );
}
