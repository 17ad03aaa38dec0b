use telegram_notifier::numbers::{parse_i64, parse_u16, parse_u64, push_i64_text};
use telegram_notifier::text::{
    chars_of, is_whitespace, join_with_space, replace_chars, split_words, string_of, trim_chars,
};

fn chars(s: &str) -> Vec<char> {
    s.chars().collect()
}

#[test]
fn whitespace_agrees_with_std() {
    for u in 0u32..0x11000 {
        if let Some(c) = char::from_u32(u) {
            assert_eq!(is_whitespace(c), c.is_whitespace(), "U+{:04X}", u);
        }
    }
}

#[test]
fn trim_and_words_agree_with_std() {
    let samples = ["", "   ", " a ", "\u{3000}hola\u{85}mundo\u{a0} ", "x\ty\n\nz", "uno  dos"];
    for s in samples {
        assert_eq!(string_of(&trim_chars(&chars(s))), s.trim());
        let ws: Vec<String> = split_words(&chars(s)).iter().map(|w| string_of(w)).collect();
        let std_ws: Vec<String> = s.split_whitespace().map(|w| w.to_string()).collect();
        assert_eq!(ws, std_ws);
        assert_eq!(string_of(&join_with_space(&split_words(&chars(s)))), std_ws.join(" "));
    }
}

#[test]
fn replace_agrees_with_std() {
    let cases = [("aaaa", "aa", "b"), ("pid: 3 pid:", "pid:", "proceso "), ("abc", "x", "y"), ("%%%", "%", " por ciento ")];
    for (s, p, r) in cases {
        assert_eq!(string_of(&replace_chars(&chars(s), &chars(p), &chars(r))), s.replace(p, r));
    }
}

#[test]
fn conversions_keep_characters() {
    assert_eq!(chars_of("añb"), vec!['a', 'ñ', 'b']);
    assert_eq!(string_of(&vec!['¡', 'x']), "¡x");
}

#[test]
fn parse_i64_follows_std() {
    let samples = [
        "-100123456789", "+5", "-", "+", "", "12a", " 1", "007", "9223372036854775807",
        "9223372036854775808", "-9223372036854775808", "-9223372036854775809", "+-1", "0",
        "99999999999999999999999",
    ];
    for s in samples {
        assert_eq!(parse_i64(&chars(s)), s.parse::<i64>().ok(), "{:?}", s);
    }
}

#[test]
fn parse_unsigned_follows_std() {
    let samples = ["65535", "65536", "+1", "-0", "-1", "", "30", "18446744073709551615", "18446744073709551616", "1e3"];
    for s in samples {
        assert_eq!(parse_u16(&chars(s)), s.parse::<u16>().ok(), "{:?}", s);
        assert_eq!(parse_u64(&chars(s)), s.parse::<u64>().ok(), "{:?}", s);
    }
}

#[test]
fn i64_text_round_trips() {
    for x in [0i64, 7, -7, 10, 123456789, -100123456789, i64::MAX, i64::MIN] {
        let mut t = Vec::new();
        push_i64_text(&mut t, x);
        assert_eq!(string_of(&t), x.to_string());
        assert_eq!(parse_i64(&t), Some(x));
    }
}
