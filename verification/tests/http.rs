use telegram_notifier::bot::handle_update;
use telegram_notifier::telegram::{Chat, Message, Update, User};
use telegram_notifier::config::Config;
use telegram_notifier::http::{
    alert_decision, is_quiet_priority, notify_decision, structured_delivery, HttpDecision, HttpReply,
    NotifyRequest,
};
use telegram_notifier::state::AppState;

fn state() -> AppState {
    let config = Config {
        bot_token: "fake_token".to_string(),
        default_chat_id: None,
        allowed_users: vec![],
        http_host: "127.0.0.1".to_string(),
        http_port: 8088,
        storage_path: "test_health_subs.json".to_string(),
    };
    AppState::new(config, None)
}

fn request(chat_id: Option<i64>, message: Option<&str>) -> NotifyRequest {
    NotifyRequest {
        host: None,
        title: None,
        message: message.map(|m| m.to_string()),
        priority: None,
        silent: None,
        chat_id,
    }
}

#[test]
fn health_is_reported() {
    let st = state();
    let h = st.health(0);
    assert_eq!(h.subscribers_count, 0);
    assert!(!h.is_silenced);
}

#[test]
fn notify_empty_rejected() {
    let st = state();
    match notify_decision(&st, 0, "", None) {
        HttpDecision::Respond(r) => {
            assert_eq!(r.status(), 400);
            assert!(matches!(r, HttpReply::Rejected(ref e) if e == "Empty message body"));
        }
        HttpDecision::Deliver(_) => panic!("must be refused"),
    }
}

#[test]
fn plain_text_is_broadcast() {
    let st = state();
    match notify_decision(&st, 0, "  Backup completado correctamente.\n", None) {
        HttpDecision::Deliver(d) => {
            assert_eq!(d.text, "*Notificación*\n\nBackup completado correctamente.");
            assert_eq!(d.parse_mode, "Markdown");
            assert!(!d.silent);
            assert_eq!(d.target_chat, None);
        }
        _ => panic!("expected a delivery"),
    }
}

#[test]
fn structured_notification() {
    let st = state();
    let mut req = request(Some(-100123456789), Some("solo para este chat"));
    req.host = Some("prod-db-01".to_string());
    req.priority = Some("LOW".to_string());
    match notify_decision(&st, 0, "{..}", Some(req)) {
        HttpDecision::Deliver(d) => {
            assert_eq!(d.text, "*Notificación [prod-db-01]*\n\nsolo para este chat");
            assert!(d.silent);
            assert_eq!(d.target_chat, Some(-100123456789));
        }
        _ => panic!("expected a delivery"),
    }
    let mut req = request(None, None);
    req.title = Some("Despliegue".to_string());
    req.priority = Some("urgent".to_string());
    match notify_decision(&st, 0, "{..}", Some(req)) {
        HttpDecision::Deliver(d) => {
            assert_eq!(d.text, "*Despliegue*");
            assert!(!d.silent);
            assert_eq!(d.target_chat, None);
        }
        _ => panic!("expected a delivery"),
    }
    let mut req = request(None, Some("x"));
    req.priority = Some("min".to_string());
    req.silent = Some(false);
    match notify_decision(&st, 0, "{..}", Some(req)) {
        HttpDecision::Deliver(d) => assert!(!d.silent),
        _ => panic!("expected a delivery"),
    }
}

#[test]
fn silence_holds_notifications_but_not_alerts() {
    let mut st = state();
    st.silence(0, 5);
    match notify_decision(&st, 1, "hola", None) {
        HttpDecision::Respond(r) => {
            assert!(matches!(r, HttpReply::Silenced));
            assert_eq!(r.status(), 200);
        }
        _ => panic!("silenced notifications are not sent"),
    }
    match alert_decision("  Fallo crítico  ", Some(request(Some(9), None))) {
        HttpDecision::Deliver(d) => {
            assert_eq!(d.text, " *ALERTA URGENTE*\n\nFallo crítico");
            assert_eq!(d.target_chat, Some(9));
            assert!(!d.silent);
        }
        _ => panic!("alerts are always delivered"),
    }
}

#[test]
fn blank_alert_rejected() {
    match alert_decision(" \n ", None) {
        HttpDecision::Respond(HttpReply::Rejected(e)) => assert_eq!(e, "Empty alert body"),
        _ => panic!("must be refused"),
    }
    assert_eq!(HttpReply::Delivered(3).status(), 200);
}

#[test]
fn silence_command_holds_notifications_until_deadline() {
    let mut st = state();
    st.config.allowed_users = vec![5];
    let update = Update {
        update_id: 1,
        message: Some(Message {
            message_id: 1,
            from: Some(User { id: 5, is_bot: false, first_name: "Ana".to_string(), username: None }),
            chat: Chat { id: 5, kind: "private".to_string(), title: None, username: None, first_name: None },
            text: Some("/silence 1".to_string()),
            date: 0,
        }),
    };
    handle_update(&mut st, &update, 100);
    assert!(matches!(notify_decision(&st, 100 + 59_999_999_999, "hola", None), HttpDecision::Respond(HttpReply::Silenced)));
    assert!(matches!(notify_decision(&st, 100 + 60_000_000_000, "hola", None), HttpDecision::Deliver(_)));
}

#[test]
fn quiet_priorities() {
    assert!(is_quiet_priority("min"));
    assert!(is_quiet_priority("low"));
    assert!(!is_quiet_priority("LOW"));
    assert!(!is_quiet_priority("default"));
    let mut req = request(Some(3), Some("m"));
    req.host = Some("h".to_string());
    match structured_delivery(req, "low") {
        HttpDecision::Deliver(d) => {
            assert_eq!(d.text, "*Notificación [h]*\n\nm");
            assert!(d.silent);
            assert_eq!(d.target_chat, Some(3));
        }
        _ => panic!("expected a delivery"),
    }
}
