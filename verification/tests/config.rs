use telegram_notifier::config::{parse_id_list, Config};

fn s(v: &str) -> Option<String> {
    Some(v.to_string())
}

#[test]
fn token_is_required() {
    let r = Config::from_env_values(None, s("1"), None, None, None, None);
    assert_eq!(r.err(), Some("TELEGRAM_BOT_TOKEN environment variable is required".to_string()));
}

#[test]
fn defaults_apply() {
    let c = Config::from_env_values(s("tok"), None, None, None, None, None).unwrap();
    assert_eq!(c.bot_token, "tok");
    assert_eq!(c.default_chat_id, None);
    assert!(c.allowed_users.is_empty());
    assert_eq!(c.http_host, "127.0.0.1");
    assert_eq!(c.http_port, 8088);
    assert_eq!(c.storage_path, "subscribers.json");
}

#[test]
fn values_are_parsed() {
    let c = Config::from_env_values(
        s("tok"),
        s("  -100123 "),
        s("1, 2,x,, 3 ,-4"),
        s("0.0.0.0"),
        s("9000"),
        s("/tmp/subs.json"),
    )
    .unwrap();
    assert_eq!(c.default_chat_id, Some(-100123));
    assert_eq!(c.allowed_users, vec![1, 2, 3, -4]);
    assert_eq!(c.http_host, "0.0.0.0");
    assert_eq!(c.http_port, 9000);
    assert_eq!(c.storage_path, "/tmp/subs.json");
}

#[test]
fn bad_numbers_fall_back() {
    let c = Config::from_env_values(s("tok"), s("abc"), s(""), None, s(" 9000"), None).unwrap();
    assert_eq!(c.default_chat_id, None);
    assert!(c.allowed_users.is_empty());
    assert_eq!(c.http_port, 8088);
    let c2 = Config::from_env_values(s("tok"), None, None, None, s("70000"), None).unwrap();
    assert_eq!(c2.http_port, 8088);
}

#[test]
fn id_list_matches_std_split() {
    for text in ["", ",", "1,2", " 5 ,,6,", "a,7,b"] {
        let expected: Vec<i64> = text.split(',').filter_map(|p| p.trim().parse::<i64>().ok()).collect();
        assert_eq!(parse_id_list(text), expected);
    }
}
