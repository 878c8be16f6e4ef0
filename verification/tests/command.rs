use swarm_lib::command::{CommandEvent, SessionAction};

#[test]
fn parses_on_and_off() {
    assert_eq!(CommandEvent::parse(b"on"), Some(CommandEvent::Solid));
    assert_eq!(CommandEvent::parse(b"off"), Some(CommandEvent::Off));
}

#[test]
fn surrounding_whitespace_is_ignored() {
    assert_eq!(CommandEvent::parse(b"on\r\n"), Some(CommandEvent::Solid));
    assert_eq!(CommandEvent::parse(b"  off\t\n"), Some(CommandEvent::Off));
    // U+3000 IDEOGRAPHIC SPACE before, U+00A0 NO-BREAK SPACE after
    assert_eq!(
        CommandEvent::parse("\u{3000}on\u{a0}".as_bytes()),
        Some(CommandEvent::Solid)
    );
}

#[test]
fn other_requests_carry_no_command() {
    assert_eq!(CommandEvent::parse(b""), None);
    assert_eq!(CommandEvent::parse(b"   "), None);
    assert_eq!(CommandEvent::parse(b"ON"), None);
    assert_eq!(CommandEvent::parse(b"o n"), None);
    assert_eq!(CommandEvent::parse(b"onn"), None);
    assert_eq!(CommandEvent::parse(b"of"), None);
    assert_eq!(CommandEvent::parse(b"on off"), None);
}

#[test]
fn invalid_utf8_carries_no_command() {
    assert_eq!(CommandEvent::parse(&[0x6f, 0x6e, 0xff]), None);
    assert_eq!(CommandEvent::parse(&[0xc3]), None);
}

#[test]
fn from_word_needs_exact_word() {
    assert_eq!(CommandEvent::from_word("on"), Some(CommandEvent::Solid));
    assert_eq!(CommandEvent::from_word("off"), Some(CommandEvent::Off));
    assert_eq!(CommandEvent::from_word(" on"), None);
    assert_eq!(CommandEvent::from_word("ön"), None);
}

#[test]
fn led_level_follows_command() {
    assert!(CommandEvent::Solid.led_high());
    assert!(!CommandEvent::Off.led_high());
}

#[test]
fn session_decisions() {
    let mut buf = [0u8; 64];
    buf[..4].copy_from_slice(b"on\r\n");
    assert_eq!(SessionAction::after_read(None, &buf), SessionAction::Close);
    assert_eq!(SessionAction::after_read(Some(0), &buf), SessionAction::Close);
    assert_eq!(
        SessionAction::after_read(Some(4), &buf),
        SessionAction::Publish(CommandEvent::Solid)
    );
    // only the received bytes count
    assert_eq!(SessionAction::after_read(Some(1), &buf), SessionAction::Reject);
    buf[..5].copy_from_slice(b"blink");
    assert_eq!(SessionAction::after_read(Some(5), &buf), SessionAction::Reject);
}

#[test]
fn replies() {
    assert_eq!(SessionAction::Close.reply(), None);
    assert_eq!(
        SessionAction::Publish(CommandEvent::Off).reply(),
        Some(b"OK\r\n".to_vec())
    );
    assert_eq!(
        SessionAction::Reject.reply(),
        Some(b"Unkown command\r\n".to_vec())
    );
}
