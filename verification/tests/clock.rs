use telegram_notifier::bot::test_notification;
use telegram_notifier::clock::{timestamp_text, LocalTime};

fn at(year: i32, month: u32, day: u32, hour: u32, minute: u32, second: u32, nanosecond: u32) -> LocalTime {
    LocalTime { year, month, day, hour, minute, second, nanosecond }
}

#[test]
fn timestamp_pads_every_field() {
    assert_eq!(timestamp_text(&at(2024, 1, 2, 3, 4, 5, 0)), "2024-01-02 03:04:05");
    assert_eq!(timestamp_text(&at(1999, 12, 31, 23, 59, 59, 999_999_999)), "1999-12-31 23:59:59");
}

#[test]
fn timestamp_small_and_signed_years() {
    assert_eq!(timestamp_text(&at(5, 6, 7, 8, 9, 10, 0)), "0005-06-07 08:09:10");
    assert_eq!(timestamp_text(&at(-5, 1, 1, 0, 0, 0, 0)), "-0005-01-01 00:00:00");
    assert_eq!(timestamp_text(&at(12345, 1, 1, 0, 0, 0, 0)), "+12345-01-01 00:00:00");
    assert_eq!(timestamp_text(&at(-12345, 1, 1, 0, 0, 0, 0)), "-12345-01-01 00:00:00");
}

#[test]
fn timestamp_shows_leap_second_as_sixty() {
    assert_eq!(timestamp_text(&at(2016, 12, 31, 23, 59, 59, 1_500_000_000)), "2016-12-31 23:59:60");
}

#[test]
fn stamped_test_notification() {
    let time = timestamp_text(&at(2024, 1, 2, 3, 4, 5, 0));
    assert_eq!(
        test_notification(&time),
        "*Notificación de prueba*\n\n*Hora:* `2024-01-02 03:04:05`\n\n¡La pasarela de notificaciones de Telegram funciona correctamente!"
    );
}
