use telegram_notifier::bot::{
    command_from_name,
    finish_broadcast, finish_relay, finish_speech, handle_update, parse_command, test_notification,
    BotStep, Command, OutgoingMessage, SpeechReply, HELP_TEXT,
};
use telegram_notifier::config::Config;
use telegram_notifier::state::AppState;
use telegram_notifier::telegram::{Chat, Message, Update, User};

fn state(allowed: Vec<i64>) -> AppState {
    let config = Config {
        bot_token: "t".to_string(),
        default_chat_id: None,
        allowed_users: allowed,
        http_host: "127.0.0.1".to_string(),
        http_port: 8088,
        storage_path: "subscribers.json".to_string(),
    };
    AppState::new(config, None)
}

fn update(chat: i64, from: Option<i64>, text: Option<&str>) -> Update {
    Update {
        update_id: 1,
        message: Some(Message {
            message_id: 1,
            from: from.map(|id| User { id, is_bot: false, first_name: "Ana".to_string(), username: None }),
            chat: Chat { id: chat, kind: "private".to_string(), title: None, username: None, first_name: None },
            text: text.map(|t| t.to_string()),
            date: 0,
        }),
    }
}

fn reply_of(step: BotStep) -> OutgoingMessage {
    match step {
        BotStep::Reply(m) => m,
        _ => panic!("expected a reply"),
    }
}

fn is_markdown(m: &OutgoingMessage) -> bool {
    m.parse_mode.as_deref() == Some("Markdown")
}

#[test]
fn command_names() {
    assert!(matches!(command_from_name("/notify"), Command::Notify));
    assert!(matches!(command_from_name("/Notify"), Command::Unknown));
    assert!(matches!(command_from_name("/silence"), Command::Silence));
    assert!(matches!(command_from_name(""), Command::Unknown));
}

#[test]
fn command_lines() {
    let l = parse_command("  /Start@MyBot  uno dos ").unwrap();
    assert!(matches!(l.command, Command::Start));
    assert_eq!(l.args, vec!["uno", "dos"]);
    assert!(matches!(parse_command("/SUBSCRIBERS").unwrap().command, Command::Subscribers));
    assert!(matches!(parse_command("/foo").unwrap().command, Command::Unknown));
    assert!(parse_command("hola /start").is_none());
    assert!(parse_command("   ").is_none());
    assert!(matches!(parse_command("/").unwrap().command, Command::Unknown));
}

#[test]
fn unauthorized_users_get_no_answer() {
    let mut st = state(vec![1]);
    let out = handle_update(&mut st, &update(2, Some(2), Some("/subscribe")), 0);
    assert!(matches!(out.step, BotStep::Ignore));
    assert!(!out.subscribers_changed);
    assert!(st.get_subscribers().is_empty());
    let mut strict = state(vec![]);
    let out = handle_update(&mut strict, &update(1, Some(1), Some("/start")), 0);
    assert!(matches!(out.step, BotStep::Ignore));
    assert!(strict.get_subscribers().is_empty());
}

#[test]
fn non_commands_are_ignored() {
    let mut st = state(vec![1]);
    assert!(matches!(handle_update(&mut st, &update(1, Some(1), Some("hola")), 0).step, BotStep::Ignore));
    assert!(matches!(handle_update(&mut st, &update(1, Some(1), None), 0).step, BotStep::Ignore));
    let no_message = Update { update_id: 3, message: None };
    assert!(matches!(handle_update(&mut st, &no_message, 0).step, BotStep::Ignore));
}

#[test]
fn sender_defaults_to_the_chat() {
    let mut st = state(vec![-77]);
    let out = handle_update(&mut st, &update(-77, None, Some("/id")), 0);
    let m = reply_of(out.step);
    assert_eq!(m.text, "*Identificadores:*\n• *Chat ID:* `-77`\n• *User ID:* `-77`");
}

#[test]
fn start_subscribes_and_greets() {
    let mut st = state(vec![5]);
    let out = handle_update(&mut st, &update(10, Some(5), Some("/start")), 0);
    assert!(out.subscribers_changed);
    assert_eq!(st.get_subscribers(), vec![10]);
    let m = reply_of(out.step);
    assert_eq!(m.chat_id, 10);
    assert!(is_markdown(&m));
    assert!(m.text.starts_with("*¡Hola, Ana!*\n\nEste bot es tu pasarela"));
    assert!(m.text.contains("*Tu Chat ID:* `10`\n*Notificaciones:*"));
    assert!(m.text.ends_with("• `/help` - Ver todos los comandos"));
}

#[test]
fn subscribe_and_unsubscribe_replies() {
    let mut st = state(vec![5]);
    let m = reply_of(handle_update(&mut st, &update(10, Some(5), Some("/subscribe")), 0).step);
    assert_eq!(m.text, "*Suscripción activada.* Este chat recibirá notificaciones.");
    let out = handle_update(&mut st, &update(10, Some(5), Some("/subscribe")), 0);
    assert!(!out.subscribers_changed);
    assert_eq!(reply_of(out.step).text, "Este chat ya estaba suscrito a las notificaciones.");
    let out = handle_update(&mut st, &update(10, Some(5), Some("/unsubscribe")), 0);
    assert!(out.subscribers_changed);
    assert_eq!(reply_of(out.step).text, "*Suscripción cancelada.* No recibirás más notificaciones en este chat.");
    let out = handle_update(&mut st, &update(10, Some(5), Some("/unsubscribe")), 0);
    assert!(!out.subscribers_changed);
    assert_eq!(reply_of(out.step).text, "Este chat no estaba suscrito.");
}

#[test]
fn help_and_unknown() {
    let mut st = state(vec![5]);
    let m = reply_of(handle_update(&mut st, &update(10, Some(5), Some("/help")), 0).step);
    assert_eq!(m.text, HELP_TEXT);
    assert!(m.text.starts_with("*Comandos disponibles:*\n\n*Gestión de Notificaciones:*\n• `/subscribe`"));
    let m = reply_of(handle_update(&mut st, &update(10, Some(5), Some("/nada")), 0).step);
    assert_eq!(m.text, "Comando no reconocido. Escribe /help para ver la lista de comandos disponibles.");
    assert!(m.parse_mode.is_none());
}

#[test]
fn subscribers_list() {
    let mut st = state(vec![5]);
    st.add_subscriber(-100);
    let m = reply_of(handle_update(&mut st, &update(10, Some(5), Some("/subscribers")), 0).step);
    assert_eq!(m.text, "*Chats suscritos:* `1`\n\n  • `-100`\n");
}

#[test]
fn silence_command() {
    let mut st = state(vec![5]);
    let m = reply_of(handle_update(&mut st, &update(10, Some(5), Some("/silence 10")), 0).step);
    assert_eq!(m.text, "*Notificaciones silenciadas por 10 minutos.*\nNo se enviarán avisos hasta cumplirse el tiempo.");
    assert!(st.is_silenced(0));
    assert!(!st.is_silenced(10 * 60_000_000_000));
    let m = reply_of(handle_update(&mut st, &update(10, Some(5), Some("/silence abc")), 0).step);
    assert!(m.text.starts_with("*Notificaciones silenciadas por 30 minutos."));
    let before = st.inner.silenced_until;
    let out = handle_update(&mut st, &update(10, Some(5), Some("/silence 18446744073709551615")), 0);
    assert!(matches!(out.step, BotStep::Ignore));
    assert_eq!(st.inner.silenced_until, before);
}

#[test]
fn test_command_is_stamped() {
    let mut st = state(vec![5]);
    let m = reply_of(handle_update(&mut st, &update(10, Some(5), Some("/test")), 0).step);
    assert!(m.text.starts_with("*Notificación de prueba*\n\n*Hora:* `"));
    assert!(m.text.ends_with("`\n\n¡La pasarela de notificaciones de Telegram funciona correctamente!"));
    assert_eq!(
        test_notification("2024-01-02 03:04:05"),
        "*Notificación de prueba*\n\n*Hora:* `2024-01-02 03:04:05`\n\n¡La pasarela de notificaciones de Telegram funciona correctamente!"
    );
}

#[test]
fn loquendo_flow() {
    let mut st = state(vec![5]);
    let m = reply_of(handle_update(&mut st, &update(10, Some(5), Some("/loquendo")), 0).step);
    assert_eq!(m.text, "Uso: `/loquendo <texto a pronunciar>`");
    match handle_update(&mut st, &update(10, Some(5), Some("/loquendo hola  mundo")), 0).step {
        BotStep::Speak { chat_id, phrase, progress } => {
            assert_eq!(chat_id, 10);
            assert_eq!(phrase, "hola mundo");
            assert_eq!(progress.text, "⏳ _Generando voz de Loquendo..._");
            assert!(progress.silent);
            match finish_speech(10, phrase.clone(), Ok(vec![1, 2])) {
                SpeechReply::Audio(a) => {
                    assert_eq!(a.audio, vec![1, 2]);
                    assert_eq!(a.file_name, "loquendo.mp3");
                    assert_eq!(a.caption, Some("hola mundo".to_string()));
                }
                SpeechReply::Text(_) => panic!("expected audio"),
            }
            match finish_speech(10, phrase, Err("boom".to_string())) {
                SpeechReply::Text(m) => assert_eq!(m.text, "Error generando audio: boom"),
                SpeechReply::Audio(_) => panic!("expected text"),
            }
        }
        _ => panic!("expected speech"),
    }
}

#[test]
fn notify_flow() {
    let mut st = state(vec![5]);
    let usage = "Uso: `/notify <chat_id> <mensaje>`";
    assert_eq!(reply_of(handle_update(&mut st, &update(10, Some(5), Some("/notify")), 0).step).text, usage);
    assert_eq!(reply_of(handle_update(&mut st, &update(10, Some(5), Some("/notify x hola")), 0).step).text, usage);
    assert_eq!(reply_of(handle_update(&mut st, &update(10, Some(5), Some("/notify 7")), 0).step).text, usage);
    match handle_update(&mut st, &update(10, Some(5), Some("/notify -100123456789 solo para este chat")), 0).step {
        BotStep::Relay { chat_id, target, message } => {
            assert_eq!(chat_id, 10);
            assert_eq!(target, -100123456789);
            assert_eq!(message.chat_id, -100123456789);
            assert_eq!(message.text, "*Notificación:*\n\nsolo para este chat");
            assert!(is_markdown(&message));
        }
        _ => panic!("expected a relay"),
    }
    assert_eq!(finish_relay(10, 7, Ok(())).text, "Notificación enviada al chat `7`.");
    let failed = finish_relay(10, 7, Err("Forbidden".to_string()));
    assert_eq!(failed.text, "Error enviando al chat 7: Forbidden");
    assert!(failed.parse_mode.is_none());
}

#[test]
fn broadcast_flow() {
    let mut st = state(vec![5]);
    assert_eq!(
        reply_of(handle_update(&mut st, &update(10, Some(5), Some("/broadcast")), 0).step).text,
        "Uso: `/broadcast <mensaje>`"
    );
    match handle_update(&mut st, &update(10, Some(5), Some("/broadcast hola a todos")), 0).step {
        BotStep::Broadcast { chat_id, text, parse_mode, silent } => {
            assert_eq!(chat_id, 10);
            assert_eq!(text, "*Aviso general:*\n\nhola a todos");
            assert_eq!(parse_mode.as_deref(), Some("Markdown"));
            assert!(!silent);
        }
        _ => panic!("expected a broadcast"),
    }
    assert_eq!(finish_broadcast(10, 3).text, "Mensaje transmitido a 3 suscriptores.");
}

#[test]
fn test_command_stamp_has_date_time_shape() {
    let mut st = state(vec![5]);
    let m = reply_of(handle_update(&mut st, &update(10, Some(5), Some("/test")), 0).step);
    let head = "*Notificación de prueba*\n\n*Hora:* `";
    let start = m.text.find(head).unwrap() + head.len();
    let stamp: Vec<char> = m.text[start..].chars().take(19).collect();
    for (i, c) in stamp.iter().enumerate() {
        match i {
            4 | 7 => assert_eq!(*c, '-'),
            10 => assert_eq!(*c, ' '),
            13 | 16 => assert_eq!(*c, ':'),
            _ => assert!(c.is_ascii_digit()),
        }
    }
    assert_eq!(m.text[start..].chars().nth(19), Some('`'));
}
