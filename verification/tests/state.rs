use telegram_notifier::config::Config;
use telegram_notifier::state::{count_delivered, AppState, NANOS_PER_MINUTE};

fn config(default_chat_id: Option<i64>, allowed_users: Vec<i64>) -> Config {
    Config {
        bot_token: "test_token".to_string(),
        default_chat_id,
        allowed_users,
        http_host: "127.0.0.1".to_string(),
        http_port: 8088,
        storage_path: "subscribers.json".to_string(),
    }
}

fn sorted(mut v: Vec<i64>) -> Vec<i64> {
    v.sort();
    v
}

#[test]
fn test_state_subscribers_and_silence() {
    let mut state = AppState::new(config(Some(111), vec![111, 222]), None);

    assert!(state.is_authorized(111));
    assert!(state.is_authorized(222));
    assert!(!state.is_authorized(333));

    // Empty whitelist must deny everyone (strict mode)
    let strict_state = AppState::new(config(None, vec![]), None);
    assert!(!strict_state.is_authorized(111));
    assert!(!strict_state.is_authorized(999999));

    let subs = state.get_subscribers();
    assert!(subs.contains(&111));

    state.add_subscriber(444);
    let subs2 = state.get_subscribers();
    assert!(subs2.contains(&444));

    state.remove_subscriber(111);
    let subs3 = state.get_subscribers();
    assert!(!subs3.contains(&111));

    let now: u128 = 5_000;
    assert!(!state.is_silenced(now));
    state.silence(now, 10);
    assert!(state.is_silenced(now));
}

#[test]
fn add_and_remove_report_changes() {
    let mut state = AppState::new(config(None, vec![1]), None);
    assert!(state.add_subscriber(5));
    assert!(!state.add_subscriber(5));
    assert!(state.remove_subscriber(5));
    assert!(!state.remove_subscriber(5));
    assert_eq!(state.get_subscribers(), Vec::<i64>::new());
}

#[test]
fn subscribe_then_unsubscribe_restores_the_set() {
    let mut state = AppState::new(config(Some(1), vec![1]), Some("[2, 3]".to_string()));
    let before = sorted(state.get_subscribers());
    assert!(state.add_subscriber(9));
    assert!(state.remove_subscriber(9));
    assert_eq!(sorted(state.get_subscribers()), before);
}

#[test]
fn silence_window_is_exact() {
    let mut state = AppState::new(config(None, vec![]), None);
    let now: u128 = 1_000;
    state.silence(now, 2);
    let deadline = now + 2 * NANOS_PER_MINUTE;
    assert!(state.is_silenced(deadline - 1));
    assert!(!state.is_silenced(deadline));
    assert!(!state.is_silenced(deadline + 1));
    state.silence(u128::MAX - 5, 3);
    assert!(state.is_silenced(u128::MAX - 1));
    assert!(!state.is_silenced(u128::MAX));
}

#[test]
fn stored_subscribers_are_loaded_with_the_default_chat() {
    let state = AppState::new(config(Some(7), vec![]), Some("[1, 2, 2, -100123456789]".to_string()));
    assert_eq!(sorted(state.get_subscribers()), vec![-100123456789, 1, 2, 7]);
    let broken = AppState::new(config(Some(7), vec![]), Some("not json".to_string()));
    assert_eq!(broken.get_subscribers(), vec![7]);
    let none = AppState::new(config(None, vec![]), None);
    assert!(none.get_subscribers().is_empty());
}

#[test]
fn subscribers_round_trip_through_storage() {
    let mut state = AppState::new(config(None, vec![]), None);
    for id in [3i64, -42, 1_000_000_007] {
        state.add_subscriber(id);
    }
    let stored = state.subscribers_json();
    let reloaded = AppState::new(config(None, vec![]), Some(stored));
    assert_eq!(sorted(reloaded.get_subscribers()), sorted(state.get_subscribers()));
}

#[test]
fn storage_text_is_pretty_json() {
    let empty = AppState::new(config(None, vec![]), None);
    assert_eq!(empty.subscribers_json(), "[]");
    let one = AppState::new(config(Some(111), vec![]), None);
    assert_eq!(one.subscribers_json(), "[\n  111\n]");
    let mut two = AppState::new(config(Some(1), vec![]), None);
    two.add_subscriber(-2);
    let text = two.subscribers_json();
    assert!(text == "[\n  1,\n  -2\n]" || text == "[\n  -2,\n  1\n]");
}

#[test]
fn delivery_targets_and_counts() {
    let mut state = AppState::new(config(None, vec![]), None);
    state.add_subscriber(10);
    state.add_subscriber(20);
    assert_eq!(state.delivery_targets(Some(99)), vec![99]);
    assert_eq!(sorted(state.delivery_targets(None)), vec![10, 20]);
    assert_eq!(count_delivered(&vec![true, false, true]), 2);
    assert_eq!(count_delivered(&vec![]), 0);
}

#[test]
fn health_reports_count_and_silence() {
    let mut state = AppState::new(config(Some(5), vec![]), None);
    let h = state.health(0);
    assert_eq!(h.subscribers_count, 1);
    assert!(!h.is_silenced);
    state.silence(0, 1);
    assert!(state.health(10).is_silenced);
}
