use guild_greeter::endpoint::{append_path_segments, append_query_pairs, OAuthConfig};
use guild_greeter::error::{Error, Rejection};
use guild_greeter::flow::{
    accept_token, authorization_pair_list, authorization_url, begin_authorization, callback_step, issue_state,
    token_endpoint, token_request_form, user_endpoint, verify_state, CallbackAction, CallbackEvent, TokenResponse,
};
use guild_greeter::session::{session_from_cookie, AuthorizedDiscord};
use guild_greeter::state_store::StateStore;

fn config() -> OAuthConfig {
    OAuthConfig {
        client_id: "123".to_string(),
        client_secret: "s3cret".to_string(),
        redirect_uri: "http://localhost:8000/try_authorize".to_string(),
        state_ttl: 600,
    }
}

fn response(token_type: &str, scope: &str) -> TokenResponse {
    TokenResponse {
        access_token: "tok".to_string(),
        token_type: token_type.to_string(),
        scope: scope.to_string(),
    }
}

#[test]
fn bearer_identify_token_is_accepted() {
    assert_eq!(accept_token(response("Bearer", "identify")), Ok("tok".to_string()));
}

#[test]
fn other_token_types_are_rejected() {
    for t in ["bearer", "BEARER", "Bearer ", "", "MAC"] {
        assert_eq!(accept_token(response(t, "identify")), Err(Rejection::NotBearer));
    }
    assert_eq!(Rejection::NotBearer.status(), 400);
}

#[test]
fn other_scopes_are_rejected() {
    for s in ["identify email", "guilds", "", "Identify"] {
        assert_eq!(accept_token(response("Bearer", s)), Err(Rejection::WrongScope));
    }
    assert_eq!(Rejection::WrongScope.status(), 400);
}

#[test]
fn query_pairs_are_form_encoded() {
    let pairs = vec![("a".to_string(), "b c".to_string()), ("d".to_string(), "e&f".to_string())];
    assert_eq!(
        append_query_pairs("https://example.net/p", &pairs),
        Some("https://example.net/p?a=b+c&d=e%26f".to_string())
    );
    assert_eq!(append_query_pairs("not a url", &pairs), None);
}

#[test]
fn path_segments_are_appended() {
    let segments = vec!["users".to_string(), "@me".to_string()];
    assert_eq!(
        append_path_segments("https://example.net/api", &segments),
        Some("https://example.net/api/users/@me".to_string())
    );
    assert_eq!(append_path_segments("mailto:x@y", &segments), None);
}

#[test]
fn endpoints_of_the_provider() {
    assert_eq!(token_endpoint(), Some("https://discord.com/api/v10/oauth2/token".to_string()));
    assert_eq!(user_endpoint(), Some("https://discord.com/api/v10/users/@me".to_string()));
}

#[test]
fn consent_url_carries_all_parameters() {
    let url = authorization_url(&config(), "ABCdef0123456789ghij").unwrap();
    assert_eq!(
        url,
        "https://discord.com/oauth2/authorize?response_type=code&client_id=123&scope=identify\
         &state=ABCdef0123456789ghij&redirect_uri=http%3A%2F%2Flocalhost%3A8000%2Ftry_authorize&prompt=none"
    );
    assert_eq!(authorization_pair_list(&config(), "x").len(), 6);
}

#[test]
fn token_form_fields() {
    let form = token_request_form(&config(), "abc");
    let expected: Vec<(String, String)> = [
        ("client_id", "123"),
        ("client_secret", "s3cret"),
        ("grant_type", "authorization_code"),
        ("code", "abc"),
        ("redirect_uri", "http://localhost:8000/try_authorize"),
    ]
    .iter()
    .map(|(k, v)| (k.to_string(), v.to_string()))
    .collect();
    assert_eq!(form, expected);
}

#[test]
fn internal_error_is_500() {
    let e = Error::new("Failed to get tokens by code.".to_string());
    assert_eq!(e.message, "Failed to get tokens by code.");
    assert_eq!(e.status(), 500);
}

#[test]
fn full_flow_from_same_ip() {
    let mut store = StateStore::new();
    let start = begin_authorization(&mut store, &config(), "1.2.3.4", 100).unwrap();
    assert_eq!(store.len(), 1);
    assert!(store.contains(&start.state));
    assert!(start.url.contains(&format!("state={}", start.state)));
    assert!(start.url.contains("prompt=none"));

    assert_eq!(verify_state(&mut store, &start.state, "1.2.3.4", 200, 600), Ok(()));
    assert!(!store.contains(&start.state));
    let access_token = accept_token(TokenResponse {
        access_token: "tok".to_string(),
        token_type: "Bearer".to_string(),
        scope: "identify".to_string(),
    })
    .unwrap();
    assert_eq!(access_token, "tok");
    let user_id = "42";
    let session = session_from_cookie(Some(user_id));
    assert_eq!(session.identity, Some(AuthorizedDiscord { id: 42 }));
}

#[test]
fn callback_from_other_ip_is_unauthorized() {
    let mut store = StateStore::new();
    let start = begin_authorization(&mut store, &config(), "1.2.3.4", 100).unwrap();
    let outcome = verify_state(&mut store, &start.state, "9.9.9.9", 200, 600);
    assert_eq!(outcome, Err(Rejection::StateNotLinked));
    assert_eq!(Rejection::StateNotLinked.status(), 401);
    assert_eq!(Rejection::StateNotLinked.message(), "This state is not linked to your ip address.");
    // the token stays for a callback from the issuing address
    assert!(store.contains(&start.state));
    assert_eq!(verify_state(&mut store, &start.state, "1.2.3.4", 200, 600), Ok(()));
}

#[test]
fn unknown_state_gets_the_same_rejection() {
    let mut store = StateStore::new();
    assert_eq!(verify_state(&mut store, "nothing", "1.2.3.4", 200, 600), Err(Rejection::StateNotLinked));
}

#[test]
fn issue_state_records_the_given_id() {
    let mut store = StateStore::new();
    let start = issue_state(&mut store, &config(), "ABCdef0123456789ghij".to_string(), "1.2.3.4", 100).unwrap();
    assert_eq!(start.state, "ABCdef0123456789ghij");
    assert_eq!(start.url, authorization_url(&config(), "ABCdef0123456789ghij").unwrap());
    assert!(store.contains("ABCdef0123456789ghij"));
    // the same id again is refused and changes nothing
    assert!(issue_state(&mut store, &config(), "ABCdef0123456789ghij".to_string(), "5.6.7.8", 100).is_none());
    assert_eq!(store.len(), 1);
    assert!(!store.verify_and_consume("ABCdef0123456789ghij", "5.6.7.8", 200, 600));
}

#[test]
fn expired_state_gets_the_same_rejection() {
    let mut store = StateStore::new();
    let start = begin_authorization(&mut store, &config(), "1.2.3.4", 100).unwrap();
    assert_eq!(verify_state(&mut store, &start.state, "1.2.3.4", 700, 600), Err(Rejection::StateNotLinked));
    assert!(!store.contains(&start.state));
}

fn callback(state: &str, client_ip: &str) -> CallbackEvent {
    CallbackEvent::Callback {
        state: state.to_string(),
        client_ip: client_ip.to_string(),
        code: "abc".to_string(),
        now: 200,
    }
}

#[test]
fn callback_steps_issue_session_for_user_42() {
    let mut store = StateStore::new();
    let start = begin_authorization(&mut store, &config(), "1.2.3.4", 100).unwrap();
    match callback_step(&mut store, &config(), callback(&start.state, "1.2.3.4")) {
        CallbackAction::Exchange { form } => assert_eq!(form, token_request_form(&config(), "abc")),
        _ => panic!("expected the code exchange"),
    }
    assert!(!store.contains(&start.state));
    match callback_step(&mut store, &config(), CallbackEvent::Token(response("Bearer", "identify"))) {
        CallbackAction::FetchUser { access_token } => assert_eq!(access_token, "tok"),
        _ => panic!("expected the user lookup"),
    }
    match callback_step(&mut store, &config(), CallbackEvent::User("42".to_string())) {
        CallbackAction::IssueSession { user_id } => {
            assert_eq!(user_id, "42");
            assert_eq!(session_from_cookie(Some(&user_id)).identity, Some(AuthorizedDiscord { id: 42 }));
        }
        _ => panic!("expected a session"),
    }
}

#[test]
fn callback_step_from_other_ip_is_rejected() {
    let mut store = StateStore::new();
    let start = begin_authorization(&mut store, &config(), "1.2.3.4", 100).unwrap();
    match callback_step(&mut store, &config(), callback(&start.state, "9.9.9.9")) {
        CallbackAction::Reject(rejection) => {
            assert_eq!(rejection, Rejection::StateNotLinked);
            assert_eq!(rejection.status(), 401);
        }
        _ => panic!("expected a rejection"),
    }
    assert!(store.contains(&start.state));
}

#[test]
fn callback_step_rejects_bad_tokens() {
    let mut store = StateStore::new();
    for (t, s, expected) in [
        ("bearer", "identify", Rejection::NotBearer),
        ("Bearer", "identify email", Rejection::WrongScope),
        ("Bearer", "guilds", Rejection::WrongScope),
    ] {
        match callback_step(&mut store, &config(), CallbackEvent::Token(response(t, s))) {
            CallbackAction::Reject(rejection) => assert_eq!(rejection, expected),
            _ => panic!("expected a rejection"),
        }
    }
}
