use vstd::prelude::*;
use crate::endpoint::{
    append_path_segments, append_query_pairs, opt_view, pairs_view, strings_view, url_with_path,
    url_with_query, OAuthConfig, API_BASE, AUTHORIZE_PAGE,
};
use crate::error::Rejection;
use crate::state_store::{after_consume, consume_succeeds, StateStore};
use crate::state_token::{generate_state, is_state_id};

verus! {

/// Query of the consent page: an authorization code is asked for, with the
/// `identify` scope only, the state token, the callback address, and no
/// second consent screen.
pub open spec fn authorization_pairs(client_id: Seq<char>, state: Seq<char>, redirect_uri: Seq<char>) -> Seq<(Seq<char>, Seq<char>)> {
    seq![
        ("response_type"@, "code"@),
        ("client_id"@, client_id),
        ("scope"@, "identify"@),
        ("state"@, state),
        ("redirect_uri"@, redirect_uri),
        ("prompt"@, "none"@),
    ]
}

/// Form sent to the token endpoint to exchange `code` for an access token.
pub open spec fn token_form(client_id: Seq<char>, client_secret: Seq<char>, code: Seq<char>, redirect_uri: Seq<char>) -> Seq<(Seq<char>, Seq<char>)> {
    seq![
        ("client_id"@, client_id),
        ("client_secret"@, client_secret),
        ("grant_type"@, "authorization_code"@),
        ("code"@, code),
        ("redirect_uri"@, redirect_uri),
    ]
}

pub open spec fn consent_url(config: &OAuthConfig, state: Seq<char>) -> Option<Seq<char>> {
    url_with_query(AUTHORIZE_PAGE@, authorization_pairs(config.client_id@, state, config.redirect_uri@))
}

pub open spec fn token_endpoint_url() -> Option<Seq<char>> {
    url_with_path(API_BASE@, seq!["oauth2"@, "token"@])
}

pub open spec fn user_endpoint_url() -> Option<Seq<char>> {
    url_with_path(API_BASE@, seq!["users"@, "@me"@])
}

fn pair(key: &str, value: &str) -> (r: (String, String))
    ensures
        r.0@ == key@,
        r.1@ == value@,
{
    (key.to_owned(), value.to_owned())
}

/// The query pairs of the consent page for `state`.
pub fn authorization_pair_list(config: &OAuthConfig, state: &str) -> (r: Vec<(String, String)>)
    ensures
        pairs_view(r@) == authorization_pairs(config.client_id@, state@, config.redirect_uri@),
{
    let mut v: Vec<(String, String)> = Vec::new();
    v.push(pair("response_type", "code"));
    v.push(pair("client_id", config.client_id.as_str()));
    v.push(pair("scope", "identify"));
    v.push(pair("state", state));
    v.push(pair("redirect_uri", config.redirect_uri.as_str()));
    v.push(pair("prompt", "none"));
    assert(pairs_view(v@) =~= authorization_pairs(config.client_id@, state@, config.redirect_uri@));
    v
}

/// The consent page address that carries `state`.
pub fn authorization_url(config: &OAuthConfig, state: &str) -> (r: Option<String>)
    ensures
        opt_view(r) == consent_url(config, state@),
{
    let pairs = authorization_pair_list(config, state);
    append_query_pairs(AUTHORIZE_PAGE, &pairs)
}

/// The form that exchanges `code` for an access token.
pub fn token_request_form(config: &OAuthConfig, code: &str) -> (r: Vec<(String, String)>)
    ensures
        pairs_view(r@) == token_form(config.client_id@, config.client_secret@, code@, config.redirect_uri@),
{
    let mut v: Vec<(String, String)> = Vec::new();
    v.push(pair("client_id", config.client_id.as_str()));
    v.push(pair("client_secret", config.client_secret.as_str()));
    v.push(pair("grant_type", "authorization_code"));
    v.push(pair("code", code));
    v.push(pair("redirect_uri", config.redirect_uri.as_str()));
    assert(pairs_view(v@) =~= token_form(config.client_id@, config.client_secret@, code@, config.redirect_uri@));
    v
}

fn segments(first: &str, second: &str) -> (r: Vec<String>)
    ensures
        strings_view(r@) == seq![first@, second@],
{
    let mut v: Vec<String> = Vec::new();
    v.push(first.to_owned());
    v.push(second.to_owned());
    assert(strings_view(v@) =~= seq![first@, second@]);
    v
}

/// Address of the provider's token endpoint.
pub fn token_endpoint() -> (r: Option<String>)
    ensures
        opt_view(r) == token_endpoint_url(),
{
    append_path_segments(API_BASE, &segments("oauth2", "token"))
}

/// Address at which the provider tells who holds an access token.
pub fn user_endpoint() -> (r: Option<String>)
    ensures
        opt_view(r) == user_endpoint_url(),
{
    append_path_segments(API_BASE, &segments("users", "@me"))
}

/// Start of an authorization: the state token recorded, and the consent page
/// that carries it.
pub struct AuthorizationStart {
    pub state: String,
    pub url: String,
}

/// Records the state token `state` for the client at `client_ip`, issued at
/// `now`, and gives the consent page that carries it. Gives `None`, and
/// leaves the store as it was, where `state` is already outstanding or the
/// consent page address cannot be built.
pub fn issue_state(store: &mut StateStore, config: &OAuthConfig, state: String, client_ip: &str, now: u64) -> (r: Option<
    AuthorizationStart,
>)
    requires
        old(store).wf(),
    ensures
        final(store).wf(),
        (r is Some) == (!old(store)@.contains_key(state@) && consent_url(config, state@) is Some),
        match r {
            Some(start) => {
                &&& start.state@ == state@
                &&& consent_url(config, state@) == Some(start.url@)
                &&& final(store)@ == old(store)@.insert(state@, (client_ip@, now))
            },
            None => final(store)@ == old(store)@,
        },
{
    let url = match authorization_url(config, state.as_str()) {
        Some(url) => url,
        None => return None,
    };
    if !store.put(state.as_str(), client_ip, now) {
        return None;
    }
    Some(AuthorizationStart { state, url })
}

/// Begins an authorization for the client at `client_ip`: draws a state
/// token and issues it at `now`.
pub fn begin_authorization(store: &mut StateStore, config: &OAuthConfig, client_ip: &str, now: u64) -> (r: Option<
    AuthorizationStart,
>)
    requires
        old(store).wf(),
    ensures
        final(store).wf(),
        match r {
            Some(start) => {
                &&& is_state_id(start.state@)
                &&& !old(store)@.contains_key(start.state@)
                &&& final(store)@ == old(store)@.insert(start.state@, (client_ip@, now))
                &&& consent_url(config, start.state@) == Some(start.url@)
            },
            None => {
                &&& final(store)@ == old(store)@
                &&& exists|state: Seq<char>|
                    is_state_id(state) && (old(store)@.contains_key(state) || consent_url(config, state) is None)
            },
        },
{
    let state = generate_state();
    issue_state(store, config, state, client_ip, now)
}

/// Checks the state of a callback at `now` against the caller's address,
/// consuming the token when it matches and has not aged out after `ttl`
/// seconds. An unknown state, an aged-out one and a state of another address
/// give the same rejection.
pub fn verify_state(store: &mut StateStore, state: &str, client_ip: &str, now: u64, ttl: u64) -> (r: Result<(), Rejection>)
    requires
        old(store).wf(),
    ensures
        final(store).wf(),
        final(store)@ == after_consume(old(store)@, state@, client_ip@, now, ttl),
        r == if consume_succeeds(old(store)@, state@, client_ip@, now, ttl) {
            Ok::<(), Rejection>(())
        } else {
            Err(Rejection::StateNotLinked)
        },
{
    if store.verify_and_consume(state, client_ip, now, ttl) {
        Ok(())
    } else {
        Err(Rejection::StateNotLinked)
    }
}

/// What the token endpoint answered.
pub struct TokenResponse {
    pub access_token: String,
    pub token_type: String,
    pub scope: String,
}

pub open spec fn token_rejection(token_type: Seq<char>, scope: Seq<char>) -> Option<Rejection> {
    if token_type != "Bearer"@ {
        Some(Rejection::NotBearer)
    } else if scope != "identify"@ {
        Some(Rejection::WrongScope)
    } else {
        None
    }
}

/// Accepts the access token only where its type is exactly `Bearer` and its
/// scope exactly `identify`.
pub fn accept_token(response: TokenResponse) -> (r: Result<String, Rejection>)
    ensures
        match token_rejection(response.token_type@, response.scope@) {
            Some(rejection) => r == Err::<String, Rejection>(rejection),
            None => r matches Ok(token) && token@ == response.access_token@,
        },
{
    let bearer = "Bearer".to_owned();
    let identify = "identify".to_owned();
    if !(response.token_type == bearer) {
        Err(Rejection::NotBearer)
    } else if !(response.scope == identify) {
        Err(Rejection::WrongScope)
    } else {
        Ok(response.access_token)
    }
}

/// What the completion of an authorization is handed, one event at a time.
pub enum CallbackEvent {
    /// The provider sent the client back with `code` and `state`, from
    /// `client_ip`, at `now`.
    Callback { state: String, client_ip: String, code: String, now: u64 },
    /// The token endpoint answered the code exchange.
    Token(TokenResponse),
    /// The provider said whose the access token is.
    User(String),
}

/// What the completion of an authorization asks for next.
pub enum CallbackAction {
    /// Answer the client with this rejection; no session is issued.
    Reject(Rejection),
    /// Post this form to the token endpoint.
    Exchange { form: Vec<(String, String)> },
    /// Ask the provider whose this access token is.
    FetchUser { access_token: String },
    /// Set the session cookie for this user.
    IssueSession { user_id: String },
}

/// One step of completing an authorization. A callback consumes its state
/// token and leads to the code exchange, or is rejected; an issued token is
/// accepted only as a `Bearer` token of scope `identify` and leads to the
/// user lookup; the user found gets the session.
pub fn callback_step(store: &mut StateStore, config: &OAuthConfig, event: CallbackEvent) -> (r: CallbackAction)
    requires
        old(store).wf(),
    ensures
        final(store).wf(),
        match event {
            CallbackEvent::Callback { state, client_ip, code, now } => {
                &&& final(store)@ == after_consume(old(store)@, state@, client_ip@, now, config.state_ttl)
                &&& if consume_succeeds(old(store)@, state@, client_ip@, now, config.state_ttl) {
                    r matches CallbackAction::Exchange { form } && pairs_view(form@) == token_form(
                        config.client_id@,
                        config.client_secret@,
                        code@,
                        config.redirect_uri@,
                    )
                } else {
                    r matches CallbackAction::Reject(x) && x == Rejection::StateNotLinked
                }
            },
            CallbackEvent::Token(t) => {
                &&& final(store)@ == old(store)@
                &&& match token_rejection(t.token_type@, t.scope@) {
                    Some(rejection) => r matches CallbackAction::Reject(x) && x == rejection,
                    None => r matches CallbackAction::FetchUser { access_token } && access_token@
                        == t.access_token@,
                }
            },
            CallbackEvent::User(id) => {
                &&& final(store)@ == old(store)@
                &&& r matches CallbackAction::IssueSession { user_id } && user_id@ == id@
            },
        },
{
    match event {
        CallbackEvent::Callback { state, client_ip, code, now } => {
            match verify_state(store, state.as_str(), client_ip.as_str(), now, config.state_ttl) {
                Ok(()) => CallbackAction::Exchange { form: token_request_form(config, code.as_str()) },
                Err(rejection) => CallbackAction::Reject(rejection),
            }
        },
        CallbackEvent::Token(t) => match accept_token(t) {
            Ok(access_token) => CallbackAction::FetchUser { access_token },
            Err(rejection) => CallbackAction::Reject(rejection),
        },
        CallbackEvent::User(user_id) => CallbackAction::IssueSession { user_id },
    }
}

} // verus!
