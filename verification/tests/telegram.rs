use telegram_notifier::telegram::{
    api_base_url, audio_outcome, audio_text_fields, bot_commands, commands_outcome, me_outcome,
    method_url, send_message_after_first, send_message_after_retry, send_message_payload,
    updates_outcome, updates_url, next_poll, ApiReply, RETRY_DELAY_SECS, ApiResponse, Chat, Message, SendProgress, Update, User,
};

fn answer<T>(ok: bool, result: Option<T>, description: Option<&str>) -> ApiReply<T> {
    ApiReply::Answer(ApiResponse { ok, result, description: description.map(|d| d.to_string()) })
}

fn user() -> User {
    User { id: 42, is_bot: true, first_name: "Bot".to_string(), username: Some("bot".to_string()) }
}

#[test]
fn urls() {
    let base = api_base_url("123:ABC");
    assert_eq!(base, "https://api.telegram.org/bot123:ABC");
    assert_eq!(method_url(&base, "getMe"), "https://api.telegram.org/bot123:ABC/getMe");
    assert_eq!(
        updates_url(&base, -5, 30),
        "https://api.telegram.org/bot123:ABC/getUpdates?offset=-5&timeout=30"
    );
}

#[test]
fn get_me_outcomes() {
    assert_eq!(me_outcome(answer(true, Some(user()), None)).map(|u| u.id), Ok(42));
    assert_eq!(me_outcome(answer(true, None, None)).err(), Some("Empty user in result".to_string()));
    assert_eq!(me_outcome(answer(false, None, Some("Unauthorized"))).err(), Some("Unauthorized".to_string()));
    assert_eq!(me_outcome(answer(false, None, None)).err(), Some("API error".to_string()));
    assert_eq!(
        me_outcome(ApiReply::Network("dns".to_string())).err(),
        Some("Network error: dns".to_string())
    );
    assert_eq!(
        me_outcome(ApiReply::Decode("eof".to_string())).err(),
        Some("JSON decode error: eof".to_string())
    );
}

#[test]
fn get_updates_outcomes() {
    let update = Update {
        update_id: 7,
        message: Some(Message {
            message_id: 1,
            from: None,
            chat: Chat { id: 5, kind: "private".to_string(), title: None, username: None, first_name: None },
            text: Some("/help".to_string()),
            date: 0,
        }),
    };
    let got = updates_outcome(answer(true, Some(vec![update]), None)).unwrap();
    assert_eq!(got.len(), 1);
    assert_eq!(got[0].update_id, 7);
    assert_eq!(updates_outcome(answer(true, None, None)).unwrap().len(), 0);
    assert_eq!(
        updates_outcome(ApiReply::Network("x".to_string())).err(),
        Some("Network error in getUpdates: x".to_string())
    );
    assert_eq!(
        updates_outcome(ApiReply::Decode("y".to_string())).err(),
        Some("JSON error in getUpdates: y".to_string())
    );
}

#[test]
fn formatted_message_is_retried_as_plain_text() {
    let payload = send_message_payload(9, "*hola*", Some("Markdown"), true);
    match send_message_after_first(payload, answer(false, None, Some("can't parse entities"))) {
        SendProgress::Retry(p, first) => {
            assert_eq!(p.chat_id, 9);
            assert_eq!(p.text, "*hola*");
            assert!(p.parse_mode.is_none());
            assert!(p.disable_notification);
            assert_eq!(send_message_after_retry(first.clone(), answer(true, None, None)), Ok(()));
            assert_eq!(
                send_message_after_retry(first, answer(false, None, Some("other"))),
                Err("can't parse entities".to_string())
            );
        }
        SendProgress::Finished(_) => panic!("expected a retry"),
    }
}

#[test]
fn plain_message_failures_are_final() {
    let payload = send_message_payload(9, "hola", None, false);
    match send_message_after_first(payload, answer(false, None, None)) {
        SendProgress::Finished(r) => assert_eq!(r, Err("Failed to send message".to_string())),
        SendProgress::Retry(..) => panic!("no retry without a parse mode"),
    }
    let payload = send_message_payload(9, "hola", Some("Markdown"), false);
    match send_message_after_first(payload, answer(true, None, None)) {
        SendProgress::Finished(r) => assert_eq!(r, Ok(())),
        SendProgress::Retry(..) => panic!("no retry after success"),
    }
    let payload = send_message_payload(9, "hola", Some("Markdown"), false);
    match send_message_after_first(payload, ApiReply::Network("reset".to_string())) {
        SendProgress::Finished(r) => {
            assert_eq!(r, Err("Network error sending message: reset".to_string()))
        }
        SendProgress::Retry(..) => panic!("no retry after a network error"),
    }
    assert_eq!(
        send_message_after_retry(None, ApiReply::Decode("bad".to_string())),
        Err("Failed to parse fallback response: bad".to_string())
    );
}

#[test]
fn audio_fields_and_outcome() {
    let fields = audio_text_fields(-100, "Audio Loquendo", "Loquendo", false);
    let fields: Vec<(&str, &str)> = fields.iter().map(|(a, b)| (a.as_str(), b.as_str())).collect();
    assert_eq!(
        fields,
        vec![("chat_id", "-100"), ("title", "Audio Loquendo"), ("performer", "Loquendo"), ("disable_notification", "false")]
    );
    assert_eq!(audio_outcome::<()>(answer(false, None, None)), Err("Failed to send audio".to_string()));
    assert_eq!(
        audio_outcome::<()>(ApiReply::Network("n".to_string())),
        Err("Network error sending audio: n".to_string())
    );
}

#[test]
fn command_menu() {
    let pairs = vec![("help".to_string(), "Mostrar lista de comandos".to_string())];
    let cmds = bot_commands(&pairs);
    assert_eq!(cmds.len(), 1);
    assert_eq!(cmds[0].command, "help");
    assert_eq!(cmds[0].description, "Mostrar lista de comandos");
    assert_eq!(commands_outcome(answer(true, Some(true), None)), Ok(()));
    assert_eq!(commands_outcome::<bool>(answer(false, None, None)), Err("Error setting commands".to_string()));
}

fn bare_update(update_id: i64) -> Update {
    Update { update_id, message: None }
}

#[test]
fn polling_advances_past_last_update() {
    let step = next_poll(0, &Ok(vec![bare_update(7), bare_update(9)]));
    assert_eq!(step.offset, 10);
    assert_eq!(step.wait_secs, None);
}

#[test]
fn polling_keeps_offset_when_nothing_came() {
    let step = next_poll(42, &Ok(Vec::new()));
    assert_eq!(step.offset, 42);
    assert_eq!(step.wait_secs, None);
}

#[test]
fn polling_waits_after_an_error() {
    let step = next_poll(42, &Err("Network error in getUpdates: down".to_string()));
    assert_eq!(step.offset, 42);
    assert_eq!(step.wait_secs, Some(RETRY_DELAY_SECS));
    assert_eq!(RETRY_DELAY_SECS, 5);
}
