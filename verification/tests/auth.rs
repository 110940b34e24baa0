use base64::Engine;
use driftwood::auth::{
    build_exchange_url, build_login_url, token_from_exchange, AuthAction, AuthError, AuthEvent,
    AuthState, LoginAttempt,
};
use driftwood::callback::{AuthCallback, CallbackListener, ListenerAction, ListenerEvent};
use driftwood::commands::{check_token, netlify_login};
use driftwood::crypto::{generate_key_pair_of, CryptoError};
use driftwood::netlify::LoginError;
use rsa::pkcs8::DecodePublicKey;

const LOGIN_PAGE: &str = "https://auth.driftwoodapp.com/login?public_key_pem=";

fn encrypted_reply(token: &str, public_key: &rsa::RsaPublicKey) -> String {
    let ciphertext = public_key
        .encrypt(&mut rand::rngs::OsRng, rsa::Pkcs1v15Encrypt, token.as_bytes())
        .unwrap();
    let text = base64::engine::general_purpose::STANDARD.encode(ciphertext);
    let mut object = serde_json::Map::new();
    object.insert("token".to_string(), serde_json::Value::String(text));
    serde_json::Value::Object(object).to_string()
}

fn callback(code: &str, state: &str) -> AuthCallback {
    AuthCallback { authorization_code: code.to_string(), state: state.to_string() }
}

#[test]
fn login_url_percent_encodes_the_key() {
    assert_eq!(build_login_url("abc-XYZ_0.9~"), format!("{}abc-XYZ_0.9~", LOGIN_PAGE));
    assert_eq!(
        build_login_url("-----BEGIN PUBLIC KEY-----\nMII+/=\n"),
        format!("{}-----BEGIN%20PUBLIC%20KEY-----%0AMII%2B%2F%3D%0A", LOGIN_PAGE)
    );
    assert_eq!(build_login_url("é"), format!("{}%C3%A9", LOGIN_PAGE));
    assert_eq!(build_login_url(""), LOGIN_PAGE);
}

#[test]
fn exchange_url_carries_code_and_state() {
    assert_eq!(
        build_exchange_url(&callback("abc", "xyz")),
        "https://auth.driftwoodapp.com/callback?code=abc&state=xyz"
    );
}

#[test]
fn token_from_exchange_reads_and_decrypts() {
    let (private_key, public_key) = generate_key_pair_of(512).unwrap();
    let reply = encrypted_reply("secret-token", &public_key);
    assert_eq!(token_from_exchange(&reply, &private_key).unwrap(), "secret-token");
}

#[test]
fn token_from_exchange_rejects_malformed_replies() {
    let (private_key, _) = generate_key_pair_of(512).unwrap();
    assert!(matches!(token_from_exchange("{}", &private_key), Err(AuthError::Protocol)));
    assert!(matches!(token_from_exchange("not json", &private_key), Err(AuthError::Protocol)));
    assert!(matches!(token_from_exchange("{\"token\": 5}", &private_key), Err(AuthError::Protocol)));
    assert!(matches!(token_from_exchange("[\"token\"]", &private_key), Err(AuthError::Protocol)));
    assert!(matches!(
        token_from_exchange("{\"token\": \"***\"}", &private_key),
        Err(AuthError::Crypto(CryptoError::Base64))
    ));
    assert!(matches!(
        token_from_exchange("{\"token\": \"AAAA\"}", &private_key),
        Err(AuthError::Crypto(CryptoError::Decryption))
    ));
}

#[test]
fn stored_token_short_circuits_the_login() {
    let (state, action) =
        AuthState::new().step(AuthEvent::TokenLoaded { token: Some("stored".to_string()) });
    assert!(matches!(action, AuthAction::Finish));
    match &state {
        AuthState::Authenticated { token } => assert_eq!(token, "stored"),
        other => panic!("unexpected: {:?}", other),
    }
    let (state, action) = state.step(AuthEvent::BrowserOpened);
    assert!(matches!(action, AuthAction::Finish));
    assert!(matches!(state, AuthState::Authenticated { .. }));
}

#[test]
fn scenario_login_from_empty_store() {
    let attempt = LoginAttempt::with_key_bits(512);
    let (attempt, action) = attempt.step(AuthEvent::TokenLoaded { token: None });
    assert!(matches!(action, AuthAction::GenerateKeys));
    let (attempt, event) = attempt.perform(&action);
    let (attempt, action) = attempt.step(event.unwrap());
    let url = match &action {
        AuthAction::OpenBrowser { url } => url.clone(),
        other => panic!("unexpected: {:?}", other),
    };
    assert!(url.starts_with(LOGIN_PAGE));
    let pem = urlencoding::decode(&url[LOGIN_PAGE.len()..]).unwrap().into_owned();
    assert!(pem.starts_with("-----BEGIN PUBLIC KEY-----"));
    let public_key = rsa::RsaPublicKey::from_public_key_pem(&pem).unwrap();
    let (attempt, event) = attempt.perform(&action);
    assert!(event.is_none());

    let (attempt, action) = attempt.step(AuthEvent::BrowserOpened);
    assert!(matches!(action, AuthAction::Listen));

    let listener = CallbackListener::new(15000);
    let (listener, wait) = listener.step(ListenerEvent::NoConnection, 100);
    assert_eq!(wait, ListenerAction::Sleep);
    let (listener, respond) = listener.step(
        ListenerEvent::Connection { request: "GET /?code=abc&state=xyz HTTP/1.1\r\n\r\n".to_string() },
        1900,
    );
    assert_eq!(respond, ListenerAction::Respond);
    let (listener, deliver) = listener.step(ListenerEvent::ResponseWritten, 1901);
    assert_eq!(deliver, ListenerAction::Deliver);
    let received = match listener.state {
        driftwood::callback::ListenerState::Done { callback } => callback,
        other => panic!("unexpected: {:?}", other),
    };

    let (attempt, action) = attempt.step(AuthEvent::CallbackReceived { callback: received });
    match &action {
        AuthAction::Exchange { url } => {
            assert_eq!(url, "https://auth.driftwoodapp.com/callback?code=abc&state=xyz")
        }
        other => panic!("unexpected: {:?}", other),
    }
    let body = encrypted_reply("bearer-token", &public_key);
    let (attempt, action) = attempt.step(AuthEvent::ExchangeReplied { body });
    assert!(matches!(action, AuthAction::Decrypt { .. }));
    let (attempt, event) = attempt.perform(&action);
    let (attempt, action) = attempt.step(event.unwrap());
    let mut store: Option<String> = None;
    match &action {
        AuthAction::SaveToken { token } => store = Some(token.clone()),
        other => panic!("unexpected: {:?}", other),
    }
    assert_eq!(store.as_deref(), Some("bearer-token"));
    let (attempt, action) = attempt.step(AuthEvent::TokenSaved);
    assert!(matches!(action, AuthAction::Finish));
    match attempt.state() {
        AuthState::Authenticated { token } => assert_eq!(token, "bearer-token"),
        other => panic!("unexpected: {:?}", other),
    }
    assert_eq!(netlify_login(attempt.state()).result, Some(true));
    assert_eq!(check_token(store.is_some()).result, Some(true));
}

#[test]
fn token_that_does_not_decrypt_is_never_saved() {
    let attempt = LoginAttempt::with_key_bits(512);
    let (attempt, action) = attempt.step(AuthEvent::TokenLoaded { token: None });
    let (attempt, event) = attempt.perform(&action);
    let (attempt, _) = attempt.step(event.unwrap());
    let (attempt, _) = attempt.step(AuthEvent::BrowserOpened);
    let (attempt, _) = attempt.step(AuthEvent::CallbackReceived { callback: callback("c", "s") });
    let (other_private, other_public) = generate_key_pair_of(512).unwrap();
    let _ = other_private;
    let body = encrypted_reply("bearer-token", &other_public);
    let (attempt, action) = attempt.step(AuthEvent::ExchangeReplied { body });
    let (attempt, event) = attempt.perform(&action);
    assert!(matches!(event, Some(AuthEvent::TokenRejected { error: AuthError::Crypto(_) })));
    let (attempt, action) = attempt.step(event.unwrap());
    assert!(matches!(action, AuthAction::Abort));
    assert!(matches!(attempt.state(), AuthState::Failed { error: AuthError::Crypto(_) }));
    let (attempt, action) = attempt.step(AuthEvent::TokenSaved);
    assert!(matches!(action, AuthAction::Abort));
    assert_eq!(netlify_login(attempt.state()).result, Some(false));
}

#[test]
fn decrypting_without_a_key_is_out_of_order() {
    let attempt = LoginAttempt::new();
    let (_, event) = attempt.perform(&AuthAction::Decrypt { body: "{}".to_string() });
    assert!(matches!(event, Some(AuthEvent::TokenRejected { error: AuthError::OutOfOrder })));
}

#[test]
fn each_failure_aborts_the_login() {
    let start = || AuthState::new().step(AuthEvent::TokenLoaded { token: None }).0;
    let (state, action) = start().step(AuthEvent::KeysFailed { error: CryptoError::KeyGeneration });
    assert!(matches!(action, AuthAction::Abort));
    assert!(matches!(state, AuthState::Failed { error: AuthError::Crypto(CryptoError::KeyGeneration) }));

    let opening = || start().step(AuthEvent::KeysReady { login_url: "u".to_string() }).0;
    let (state, _) = opening().step(AuthEvent::BrowserFailed);
    assert!(matches!(state, AuthState::Failed { error: AuthError::Login(LoginError::BrowserOpenError) }));
    let (state, _) = opening().step(AuthEvent::ListenerFailed { reason: "in use".to_string() });
    match state {
        AuthState::Failed { error: AuthError::Login(LoginError::IoError(reason)) } => {
            assert_eq!(reason, "in use")
        }
        other => panic!("unexpected: {:?}", other),
    }

    let awaiting = || opening().step(AuthEvent::BrowserOpened).0;
    let (state, _) = awaiting().step(AuthEvent::CallbackFailed { error: LoginError::TimeoutError });
    assert!(matches!(state, AuthState::Failed { error: AuthError::Login(LoginError::TimeoutError) }));

    let exchanging =
        || awaiting().step(AuthEvent::CallbackReceived { callback: callback("c", "s") }).0;
    let (state, _) = exchanging().step(AuthEvent::ExchangeFailed { reason: "down".to_string() });
    assert!(matches!(state, AuthState::Failed { error: AuthError::Transport(_) }));

    let decrypting = || exchanging().step(AuthEvent::ExchangeReplied { body: "{}".to_string() }).0;
    let (state, _) = decrypting().step(AuthEvent::TokenRejected { error: AuthError::Protocol });
    assert!(matches!(state, AuthState::Failed { error: AuthError::Protocol }));

    let persisting = || decrypting().step(AuthEvent::TokenDecrypted { token: "t".to_string() }).0;
    let (state, action) = persisting().step(AuthEvent::SaveFailed { reason: "disk".to_string() });
    assert!(matches!(action, AuthAction::Abort));
    assert!(matches!(state, AuthState::Failed { error: AuthError::Store(_) }));

    let (state, action) = start().step(AuthEvent::TokenSaved);
    assert!(matches!(action, AuthAction::Abort));
    assert!(matches!(state, AuthState::Failed { error: AuthError::OutOfOrder }));
}
