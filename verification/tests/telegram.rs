use isla::decimal::{decimal_text, parse_i64};
use isla::telegram::{
    chat_id_value, inbound_batch, ChatIdValue, GetUpdates, TgChat, TgMessage, TgUser, Update,
};

#[test]
fn numeric_chat_id_is_serialized_as_number() {
    assert_eq!(chat_id_value("12345"), ChatIdValue::Number(12345));
}

#[test]
fn negative_chat_id_is_serialized_as_number() {
    assert_eq!(chat_id_value("-1009876543210"), ChatIdValue::Number(-1009876543210_i64));
}

#[test]
fn username_chat_id_is_serialized_as_string() {
    assert_eq!(chat_id_value("@my_channel"), ChatIdValue::Name("@my_channel".to_string()));
}

#[test]
fn chat_ids_parse_as_i64_does() {
    for s in ["0", "+7", "-0", "9223372036854775807", "-9223372036854775808", "007"] {
        assert_eq!(parse_i64(s), s.parse::<i64>().ok(), "{s}");
    }
    for s in ["", "-", "+", "9223372036854775808", "-9223372036854775809", " 1", "1 ", "1_000", "--1", "１"] {
        assert_eq!(parse_i64(s), None, "{s}");
        assert!(s.parse::<i64>().is_err(), "{s}");
    }
    assert_eq!(chat_id_value(""), ChatIdValue::Name(String::new()));
}

#[test]
fn decimal_text_matches_display() {
    for n in [0i64, 7, 10, -1, 1234567890, i64::MAX, i64::MIN, -1009876543210] {
        assert_eq!(decimal_text(n), n.to_string());
    }
}

fn update(id: i64, message: Option<TgMessage>) -> Update {
    Update { update_id: id, message }
}

fn text_message(chat: i64, from: Option<i64>, text: Option<&str>) -> TgMessage {
    TgMessage {
        message_id: 1,
        chat: TgChat { id: chat },
        from: from.map(|id| TgUser { id }),
        text: text.map(|t| t.to_string()),
    }
}

#[test]
fn a_batch_forwards_text_messages_and_advances_the_offset() {
    let updates = vec![
        update(10, Some(text_message(-55, Some(7), Some("hi")))),
        update(11, None),
        update(12, Some(text_message(8, None, None))),
        update(13, Some(text_message(8, None, Some("there")))),
    ];
    let batch = inbound_batch(updates, 0, &"telegram".to_string());
    assert_eq!(batch.next_offset, 14);
    assert_eq!(batch.messages.len(), 2);
    assert_eq!(batch.messages[0].platform, "telegram");
    assert_eq!(batch.messages[0].chat_id, "-55");
    assert_eq!(batch.messages[0].user_id, "7");
    assert_eq!(batch.messages[0].text, "hi");
    assert_eq!(batch.messages[1].chat_id, "8");
    assert_eq!(batch.messages[1].user_id, "");
    assert_eq!(batch.messages[1].text, "there");
}

#[test]
fn an_empty_batch_keeps_the_offset() {
    let batch = inbound_batch(Vec::new(), 41, &"telegram".to_string());
    assert_eq!(batch.next_offset, 41);
    assert!(batch.messages.is_empty());
}

#[test]
fn only_successful_envelopes_are_read() {
    let ok = GetUpdates { ok: true, result: vec![update(1, None)] };
    assert_eq!(ok.accepted().map(|u| u.len()), Some(1));
    let failed = GetUpdates { ok: false, result: vec![update(1, None)] };
    assert!(failed.accepted().is_none());
}

#[test]
fn inbound_chat_ids_are_sent_back_as_numbers() {
    for n in [0i64, 5, -1009876543210, i64::MAX, i64::MIN] {
        assert_eq!(parse_i64(&decimal_text(n)), Some(n));
        assert_eq!(chat_id_value(&decimal_text(n)), ChatIdValue::Number(n));
    }
}
