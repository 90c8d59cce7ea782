use journal_relay::config::{Opts, REJECTION_NOTICE};

fn opts(chat: &str) -> Opts {
    Opts {
        telegram_token: "t".to_string(),
        chat: chat.to_string(),
        github_token: "g".to_string(),
        repo: "owner/journal".to_string(),
    }
}

#[test]
fn the_listed_chat_is_admitted() {
    assert!(opts("123456").admits(123456));
    assert!(opts("-1001234567890").admits(-1001234567890));
    assert!(opts("0").admits(0));
}

#[test]
fn any_other_chat_is_refused() {
    assert!(!opts("123456").admits(123457));
    assert!(!opts("123456").admits(12345));
    assert!(!opts("123456").admits(1234567));
    assert!(!opts("123456").admits(-123456));
    assert!(!opts("").admits(0));
    assert!(!opts("0123456").admits(123456));
    assert!(!opts("+123456").admits(123456));
    assert!(!opts(" 123456").admits(123456));
    assert!(!opts("chat").admits(0));
}

#[test]
fn the_notice_to_a_refused_sender() {
    assert_eq!(REJECTION_NOTICE, "your are not in whitelist");
}
