use guild_greeter::session::{parse_user_id, session_from_cookie, AuthorizedDiscord, SessionOutcome};

#[test]
fn numeric_cookie_gives_identity() {
    assert_eq!(
        session_from_cookie(Some("42")),
        SessionOutcome { identity: Some(AuthorizedDiscord { id: 42 }), clear_cookie: false }
    );
}

#[test]
fn non_numeric_cookie_is_anonymous_and_cleared() {
    assert_eq!(
        session_from_cookie(Some("abc")),
        SessionOutcome { identity: None, clear_cookie: true }
    );
    assert_eq!(
        session_from_cookie(Some("")),
        SessionOutcome { identity: None, clear_cookie: true }
    );
}

#[test]
fn missing_cookie_is_anonymous_and_kept() {
    assert_eq!(session_from_cookie(None), SessionOutcome { identity: None, clear_cookie: false });
}

#[test]
fn user_id_parse_edges() {
    assert_eq!(parse_user_id("0"), Some(0));
    assert_eq!(parse_user_id("+7"), Some(7));
    assert_eq!(parse_user_id("18446744073709551615"), Some(u64::MAX));
    assert_eq!(parse_user_id("18446744073709551616"), None);
    assert_eq!(parse_user_id("+"), None);
    assert_eq!(parse_user_id("-1"), None);
    assert_eq!(parse_user_id("12a"), None);
    assert_eq!(parse_user_id(" 1"), None);
    for s in ["0", "+7", "18446744073709551615", "18446744073709551616", "+", "-1", "12a", "", "٣"] {
        assert_eq!(parse_user_id(s), s.parse::<u64>().ok());
    }
}
