//! The login handshake: from an empty token store to a decrypted token,
//! through a fresh key pair, the browser, the loopback callback and the token
//! exchange.

use crate::callback::{AuthCallback, CallbackModel};
use crate::crypto::{
    decrypt_token, decrypted_token, generate_key_pair_of, get_public_key_pem, is_public_key_pem,
    public_key_pem_text, rsa_modulus_bits, rsa_public_half, CryptoError, KEY_BITS, MIN_KEY_BITS,
};
use crate::netlify::{LoginError, LoginErrorView};
use crate::text::join_text;
use vstd::prelude::*;

verus! {

/// Whether the byte `b` stands for itself in percent-encoded text: a letter,
/// a digit, or one of `-`, `.`, `_`, `~`.
pub open spec fn is_unreserved(b: u8) -> bool {
    (0x30 <= b <= 0x39) || (0x41 <= b <= 0x5A) || (0x61 <= b <= 0x7A) || b == 0x2D || b == 0x2E
        || b == 0x5F || b == 0x7E
}

/// The upper-case hexadecimal digit of `d`, for `d` below sixteen.
pub open spec fn hex_upper(d: u8) -> char {
    if d < 10 {
        (0x30 + d) as char
    } else {
        (0x37 + d) as char
    }
}

/// The byte `b` percent-encoded.
pub open spec fn percent_encoded_byte(b: u8) -> Seq<char> {
    if is_unreserved(b) {
        seq![b as char]
    } else {
        seq!['%', hex_upper(b / 16), hex_upper(b % 16)]
    }
}

/// The bytes `bytes` percent-encoded, byte by byte.
pub open spec fn percent_encoded(bytes: Seq<u8>) -> Seq<char>
    decreases bytes.len(),
{
    if bytes.len() == 0 {
        Seq::empty()
    } else {
        percent_encoded(bytes.drop_last()) + percent_encoded_byte(bytes.last())
    }
}

/// Calls `urlencoding::encode`: every byte of the text's UTF-8 form stands
/// for itself where it is a letter, a digit or one of `-`, `.`, `_`, `~`, and
/// becomes `%` and two upper-case hexadecimal digits otherwise.
#[verifier::external_body]
fn percent_encode(text: &str) -> (r: String)
    ensures
        r@ == percent_encoded(vstd::utf8::encode_utf8(text@)),
{
    urlencoding::encode(text).into_owned()
}

/// The text of the string member `key` of the JSON object `document`, as
/// `serde_json` reads it; `None` where `document` is no JSON, no object, or
/// holds no string under `key`.
pub uninterp spec fn json_string_member(document: Seq<char>, key: Seq<char>) -> Option<Seq<char>>;

/// Calls `serde_json::from_str` for a `serde_json::Value`, then `Value::get`
/// and `Value::as_str` on what it gives. The contract only names the result.
#[verifier::external_body]
fn json_member_text(document: &str, key: &str) -> (r: Option<String>)
    ensures
        match r {
            Some(text) => json_string_member(document@, key@) == Some(text@),
            None => json_string_member(document@, key@) is None,
        },
{
    let value = serde_json::from_str::<serde_json::Value>(document).ok()?;
    Some(value.get(key)?.as_str()?.to_owned())
}

/// The address of the provider's login page for the public key `pem`.
pub open spec fn login_url(pem: Seq<char>) -> Seq<char> {
    "https://auth.driftwoodapp.com/login?public_key_pem="@ + percent_encoded(
        vstd::utf8::encode_utf8(pem),
    )
}

/// The address at which the provider exchanges `callback` for a token.
pub open spec fn exchange_url(callback: CallbackModel) -> Seq<char> {
    "https://auth.driftwoodapp.com/callback?code="@ + callback.0 + "&state="@ + callback.1
}

/// The address to open in the browser: the provider's login page, carrying
/// the public key in percent-encoded PEM form.
pub fn build_login_url(public_key_pem: &str) -> (r: String)
    ensures
        r@ == login_url(public_key_pem@),
{
    join_text(
        "https://auth.driftwoodapp.com/login?public_key_pem=",
        percent_encode(public_key_pem).as_str(),
    )
}

/// The address to request in order to exchange the callback for a token.
pub fn build_exchange_url(callback: &AuthCallback) -> (r: String)
    ensures
        r@ == exchange_url(callback@),
{
    let mut url = join_text(
        "https://auth.driftwoodapp.com/callback?code=",
        callback.authorization_code.as_str(),
    );
    url.append("&state=");
    url.append(callback.state.as_str());
    url
}

/// Why a login failed.
#[derive(Debug)]
pub enum AuthError {
    /// No authorization code was obtained.
    Login(LoginError),
    /// A step of the key handling failed.
    Crypto(CryptoError),
    /// The token endpoint could not be reached.
    Transport(String),
    /// The token endpoint's reply holds no token.
    Protocol,
    /// The token could not be written to the store.
    Store(String),
    /// A step was reported that the current state does not wait for.
    OutOfOrder,
}

/// An [`AuthError`] as the contracts see it.
pub enum AuthErrorView {
    Login(LoginErrorView),
    Crypto(CryptoError),
    Transport(Seq<char>),
    Protocol,
    Store(Seq<char>),
    OutOfOrder,
}

impl View for AuthError {
    type V = AuthErrorView;

    open spec fn view(&self) -> AuthErrorView {
        match *self {
            AuthError::Login(error) => AuthErrorView::Login(error@),
            AuthError::Crypto(error) => AuthErrorView::Crypto(error),
            AuthError::Transport(reason) => AuthErrorView::Transport(reason@),
            AuthError::Protocol => AuthErrorView::Protocol,
            AuthError::Store(reason) => AuthErrorView::Store(reason@),
            AuthError::OutOfOrder => AuthErrorView::OutOfOrder,
        }
    }
}

/// The token that the token endpoint's reply `body` holds for the owner of
/// `private_key`: a reply that is no JSON object with a string member `token`
/// is a protocol error; otherwise the token is what the member decrypts to.
pub open spec fn token_of_exchange(body: Seq<char>, private_key: rsa::RsaPrivateKey) -> Result<
    Seq<char>,
    AuthErrorView,
> {
    match json_string_member(body, "token"@) {
        None => Err(AuthErrorView::Protocol),
        Some(encrypted) => match decrypted_token(encrypted, private_key) {
            Ok(token) => Ok(token),
            Err(error) => Err(AuthErrorView::Crypto(error)),
        },
    }
}

/// A result as the contracts see it.
pub open spec fn token_result_view(r: Result<String, AuthError>) -> Result<
    Seq<char>,
    AuthErrorView,
> {
    match r {
        Ok(token) => Ok(token@),
        Err(error) => Err(error@),
    }
}

/// Reads the token out of the token endpoint's reply `body`, a JSON object
/// whose member `token` holds the encrypted token as base64 text, and
/// decrypts it with `private_key`.
pub fn token_from_exchange(body: &str, private_key: &rsa::RsaPrivateKey) -> (r: Result<
    String,
    AuthError,
>)
    ensures
        token_result_view(r) == token_of_exchange(body@, *private_key),
{
    match json_member_text(body, "token") {
        None => Err(AuthError::Protocol),
        Some(encrypted) => match decrypt_token(encrypted.as_str(), private_key) {
            Ok(token) => Ok(token),
            Err(error) => Err(AuthError::Crypto(error)),
        },
    }
}

/// Where a login stands.
#[derive(Debug)]
pub enum AuthState {
    /// The token store has not been consulted yet.
    Start,
    /// The store is empty; a key pair is being generated.
    GeneratingKeys,
    /// The listener is being bound and the browser opened on the login page.
    OpeningBrowser,
    /// The browser is open; the listener waits for the callback.
    AwaitingCallback,
    /// The authorization code has been sent to the token endpoint.
    Exchanging,
    /// The token endpoint has replied; its token is being decrypted.
    Decrypting,
    /// The token is decrypted and is being written to the store.
    Persisting { token: String },
    /// The login is over: this is the bearer token.
    Authenticated { token: String },
    /// The login was abandoned.
    Failed { error: AuthError },
}

/// An [`AuthState`] as the contracts see it.
pub enum AuthStateView {
    Start,
    GeneratingKeys,
    OpeningBrowser,
    AwaitingCallback,
    Exchanging,
    Decrypting,
    Persisting { token: Seq<char> },
    Authenticated { token: Seq<char> },
    Failed { error: AuthErrorView },
}

impl View for AuthState {
    type V = AuthStateView;

    open spec fn view(&self) -> AuthStateView {
        match *self {
            AuthState::Start => AuthStateView::Start,
            AuthState::GeneratingKeys => AuthStateView::GeneratingKeys,
            AuthState::OpeningBrowser => AuthStateView::OpeningBrowser,
            AuthState::AwaitingCallback => AuthStateView::AwaitingCallback,
            AuthState::Exchanging => AuthStateView::Exchanging,
            AuthState::Decrypting => AuthStateView::Decrypting,
            AuthState::Persisting { token } => AuthStateView::Persisting { token: token@ },
            AuthState::Authenticated { token } => AuthStateView::Authenticated { token: token@ },
            AuthState::Failed { error } => AuthStateView::Failed { error: error@ },
        }
    }
}

/// What the driver of a login reports back after it has acted.
#[derive(Debug)]
#[allow(inconsistent_fields)]
pub enum AuthEvent {
    /// The token store was read: the token it holds, if any.
    TokenLoaded { token: Option<String> },
    /// A key pair was generated; this is the login page for its public key.
    KeysReady { login_url: String },
    /// No key pair could be generated, or its public key not written out.
    KeysFailed { error: CryptoError },
    /// The listener is bound and the browser is open.
    BrowserOpened,
    /// The browser could not be opened.
    BrowserFailed,
    /// The loopback listener could not be bound.
    ListenerFailed { reason: String },
    /// The listener received the callback.
    CallbackReceived { callback: AuthCallback },
    /// The listener ended without a callback.
    CallbackFailed { error: LoginError },
    /// The token endpoint replied with this body.
    ExchangeReplied { body: String },
    /// The token endpoint could not be reached.
    ExchangeFailed { reason: String },
    /// The reply held a token, and it decrypted to this text.
    TokenDecrypted { token: String },
    /// The reply held no token, or the token did not decrypt.
    TokenRejected { error: AuthError },
    /// The token was written to the store.
    TokenSaved,
    /// The token could not be written to the store.
    SaveFailed { reason: String },
}

/// An [`AuthEvent`] as the contracts see it.
#[allow(inconsistent_fields)]
pub enum AuthEventView {
    TokenLoaded { token: Option<Seq<char>> },
    KeysReady { login_url: Seq<char> },
    KeysFailed { error: CryptoError },
    BrowserOpened,
    BrowserFailed,
    ListenerFailed { reason: Seq<char> },
    CallbackReceived { callback: CallbackModel },
    CallbackFailed { error: LoginErrorView },
    ExchangeReplied { body: Seq<char> },
    ExchangeFailed { reason: Seq<char> },
    TokenDecrypted { token: Seq<char> },
    TokenRejected { error: AuthErrorView },
    TokenSaved,
    SaveFailed { reason: Seq<char> },
}

impl View for AuthEvent {
    type V = AuthEventView;

    open spec fn view(&self) -> AuthEventView {
        match *self {
            AuthEvent::TokenLoaded { token } => AuthEventView::TokenLoaded {
                token: match token {
                    Some(t) => Some(t@),
                    None => None,
                },
            },
            AuthEvent::KeysReady { login_url } => AuthEventView::KeysReady { login_url: login_url@ },
            AuthEvent::KeysFailed { error } => AuthEventView::KeysFailed { error },
            AuthEvent::BrowserOpened => AuthEventView::BrowserOpened,
            AuthEvent::BrowserFailed => AuthEventView::BrowserFailed,
            AuthEvent::ListenerFailed { reason } => AuthEventView::ListenerFailed {
                reason: reason@,
            },
            AuthEvent::CallbackReceived { callback } => AuthEventView::CallbackReceived {
                callback: callback@,
            },
            AuthEvent::CallbackFailed { error } => AuthEventView::CallbackFailed { error: error@ },
            AuthEvent::ExchangeReplied { body } => AuthEventView::ExchangeReplied { body: body@ },
            AuthEvent::ExchangeFailed { reason } => AuthEventView::ExchangeFailed {
                reason: reason@,
            },
            AuthEvent::TokenDecrypted { token } => AuthEventView::TokenDecrypted { token: token@ },
            AuthEvent::TokenRejected { error } => AuthEventView::TokenRejected { error: error@ },
            AuthEvent::TokenSaved => AuthEventView::TokenSaved,
            AuthEvent::SaveFailed { reason } => AuthEventView::SaveFailed { reason: reason@ },
        }
    }
}

/// What the driver of a login is to do next.
#[derive(Debug)]
pub enum AuthAction {
    /// Generate the key pair of this attempt.
    GenerateKeys,
    /// Bind the loopback listener, then open the browser at this address.
    OpenBrowser { url: String },
    /// Run the loopback listener until it has an outcome.
    Listen,
    /// Request this address of the token endpoint.
    Exchange { url: String },
    /// Read the token out of this reply and decrypt it.
    Decrypt { body: String },
    /// Write this token to the store.
    SaveToken { token: String },
    /// The login is over: the state holds the token.
    Finish,
    /// The login has failed: the state holds the error.
    Abort,
}

/// An [`AuthAction`] as the contracts see it.
pub enum AuthActionView {
    GenerateKeys,
    OpenBrowser { url: Seq<char> },
    Listen,
    Exchange { url: Seq<char> },
    Decrypt { body: Seq<char> },
    SaveToken { token: Seq<char> },
    Finish,
    Abort,
}

impl View for AuthAction {
    type V = AuthActionView;

    open spec fn view(&self) -> AuthActionView {
        match *self {
            AuthAction::GenerateKeys => AuthActionView::GenerateKeys,
            AuthAction::OpenBrowser { url } => AuthActionView::OpenBrowser { url: url@ },
            AuthAction::Listen => AuthActionView::Listen,
            AuthAction::Exchange { url } => AuthActionView::Exchange { url: url@ },
            AuthAction::Decrypt { body } => AuthActionView::Decrypt { body: body@ },
            AuthAction::SaveToken { token } => AuthActionView::SaveToken { token: token@ },
            AuthAction::Finish => AuthActionView::Finish,
            AuthAction::Abort => AuthActionView::Abort,
        }
    }
}

/// The failure of a login on `error`.
pub open spec fn auth_failure(error: AuthErrorView) -> (AuthStateView, AuthActionView) {
    (AuthStateView::Failed { error }, AuthActionView::Abort)
}

/// The login's transition function: the state that follows `state` on
/// `event`, and what the driver is to do then. A stored token ends the login
/// at once; otherwise the steps follow each other in one order, a failure of
/// any of them fails the login, and the two final states never change.
pub open spec fn auth_next(state: AuthStateView, event: AuthEventView) -> (
    AuthStateView,
    AuthActionView,
) {
    match (state, event) {
        (AuthStateView::Authenticated { .. }, _) => (state, AuthActionView::Finish),
        (AuthStateView::Failed { .. }, _) => (state, AuthActionView::Abort),
        (AuthStateView::Start, AuthEventView::TokenLoaded { token: Some(token) }) => (
            AuthStateView::Authenticated { token },
            AuthActionView::Finish,
        ),
        (AuthStateView::Start, AuthEventView::TokenLoaded { token: None }) => (
            AuthStateView::GeneratingKeys,
            AuthActionView::GenerateKeys,
        ),
        (AuthStateView::GeneratingKeys, AuthEventView::KeysReady { login_url }) => (
            AuthStateView::OpeningBrowser,
            AuthActionView::OpenBrowser { url: login_url },
        ),
        (AuthStateView::GeneratingKeys, AuthEventView::KeysFailed { error }) => auth_failure(
            AuthErrorView::Crypto(error),
        ),
        (AuthStateView::OpeningBrowser, AuthEventView::BrowserOpened) => (
            AuthStateView::AwaitingCallback,
            AuthActionView::Listen,
        ),
        (AuthStateView::OpeningBrowser, AuthEventView::BrowserFailed) => auth_failure(
            AuthErrorView::Login(LoginErrorView::BrowserOpenError),
        ),
        (AuthStateView::OpeningBrowser, AuthEventView::ListenerFailed { reason }) => auth_failure(
            AuthErrorView::Login(LoginErrorView::IoError(reason)),
        ),
        (AuthStateView::AwaitingCallback, AuthEventView::CallbackReceived { callback }) => (
            AuthStateView::Exchanging,
            AuthActionView::Exchange { url: exchange_url(callback) },
        ),
        (AuthStateView::AwaitingCallback, AuthEventView::CallbackFailed { error }) => auth_failure(
            AuthErrorView::Login(error),
        ),
        (AuthStateView::Exchanging, AuthEventView::ExchangeReplied { body }) => (
            AuthStateView::Decrypting,
            AuthActionView::Decrypt { body },
        ),
        (AuthStateView::Exchanging, AuthEventView::ExchangeFailed { reason }) => auth_failure(
            AuthErrorView::Transport(reason),
        ),
        (AuthStateView::Decrypting, AuthEventView::TokenDecrypted { token }) => (
            AuthStateView::Persisting { token },
            AuthActionView::SaveToken { token },
        ),
        (AuthStateView::Decrypting, AuthEventView::TokenRejected { error }) => auth_failure(error),
        (AuthStateView::Persisting { token }, AuthEventView::TokenSaved) => (
            AuthStateView::Authenticated { token },
            AuthActionView::Finish,
        ),
        (AuthStateView::Persisting { .. }, AuthEventView::SaveFailed { reason }) => auth_failure(
            AuthErrorView::Store(reason),
        ),
        _ => auth_failure(AuthErrorView::OutOfOrder),
    }
}

/// The failure of a login on `error`.
fn fail(error: AuthError) -> (r: (AuthState, AuthAction))
    ensures
        r.0@ == auth_failure(error@).0,
        r.1@ == auth_failure(error@).1,
{
    (AuthState::Failed { error }, AuthAction::Abort)
}

impl AuthState {
    /// A login that has not begun.
    pub fn new() -> (r: AuthState)
        ensures
            r@ == AuthStateView::Start,
    {
        AuthState::Start
    }

    /// Takes one step of the login: consumes what the driver reports and
    /// says what it is to do next.
    pub fn step(self, event: AuthEvent) -> (r: (AuthState, AuthAction))
        ensures
            r.0@ == auth_next(self@, event@).0,
            r.1@ == auth_next(self@, event@).1,
    {
        match self {
            AuthState::Authenticated { token } => (
                AuthState::Authenticated { token },
                AuthAction::Finish,
            ),
            AuthState::Failed { error } => (AuthState::Failed { error }, AuthAction::Abort),
            AuthState::Start => match event {
                AuthEvent::TokenLoaded { token } => match token {
                    Some(token) => (AuthState::Authenticated { token }, AuthAction::Finish),
                    None => (AuthState::GeneratingKeys, AuthAction::GenerateKeys),
                },
                _ => fail(AuthError::OutOfOrder),
            },
            AuthState::GeneratingKeys => match event {
                AuthEvent::KeysReady { login_url } => (
                    AuthState::OpeningBrowser,
                    AuthAction::OpenBrowser { url: login_url },
                ),
                AuthEvent::KeysFailed { error } => fail(AuthError::Crypto(error)),
                _ => fail(AuthError::OutOfOrder),
            },
            AuthState::OpeningBrowser => match event {
                AuthEvent::BrowserOpened => (AuthState::AwaitingCallback, AuthAction::Listen),
                AuthEvent::BrowserFailed => fail(AuthError::Login(LoginError::BrowserOpenError)),
                AuthEvent::ListenerFailed { reason } => fail(
                    AuthError::Login(LoginError::IoError(reason)),
                ),
                _ => fail(AuthError::OutOfOrder),
            },
            AuthState::AwaitingCallback => match event {
                AuthEvent::CallbackReceived { callback } => (
                    AuthState::Exchanging,
                    AuthAction::Exchange { url: build_exchange_url(&callback) },
                ),
                AuthEvent::CallbackFailed { error } => fail(AuthError::Login(error)),
                _ => fail(AuthError::OutOfOrder),
            },
            AuthState::Exchanging => match event {
                AuthEvent::ExchangeReplied { body } => (
                    AuthState::Decrypting,
                    AuthAction::Decrypt { body },
                ),
                AuthEvent::ExchangeFailed { reason } => fail(AuthError::Transport(reason)),
                _ => fail(AuthError::OutOfOrder),
            },
            AuthState::Decrypting => match event {
                AuthEvent::TokenDecrypted { token } => {
                    let saved = token.clone();
                    (AuthState::Persisting { token }, AuthAction::SaveToken { token: saved })
                },
                AuthEvent::TokenRejected { error } => fail(error),
                _ => fail(AuthError::OutOfOrder),
            },
            AuthState::Persisting { token } => match event {
                AuthEvent::TokenSaved => (AuthState::Authenticated { token }, AuthAction::Finish),
                AuthEvent::SaveFailed { reason } => fail(AuthError::Store(reason)),
                _ => fail(AuthError::OutOfOrder),
            },
        }
    }
}

/// A stored token is reused as it is: the login ends at once, with no key
/// pair generated and no browser opened.
pub proof fn lemma_stored_token_is_reused(token: Seq<char>)
    ensures
        auth_next(AuthStateView::Start, AuthEventView::TokenLoaded { token: Some(token) }) == (
            AuthStateView::Authenticated { token },
            AuthActionView::Finish,
        ),
{
}

/// No token is written to the store unless it came out of a decryption that
/// succeeded, and a login only ends with a token that was stored before it
/// began or was written during it.
pub proof fn lemma_only_decrypted_tokens_are_saved(state: AuthStateView, event: AuthEventView)
    ensures
        auth_next(state, event).1 is SaveToken ==> state is Decrypting && event
            == (AuthEventView::TokenDecrypted { token: auth_next(state, event).1->SaveToken_token }),
        auth_next(state, event).0 is Authenticated ==> state is Authenticated || (state is Start
            && event is TokenLoaded) || (state is Persisting && event is TokenSaved),
{
}

/// A failure of any step ends the login for good: whatever is reported
/// later, the login stays failed on the same error and asks for nothing.
pub proof fn lemma_failure_is_final(error: AuthErrorView, later: AuthEventView)
    ensures
        auth_next(AuthStateView::Failed { error }, later) == auth_failure(error),
{
}

/// What the generation of keys gave, seen from the attempt that now holds
/// `private_key`: the login page for the public half of that key, written
/// out as PEM text.
pub open spec fn is_login_url_of(url: Seq<char>, private_key: rsa::RsaPrivateKey) -> bool {
    let pem = public_key_pem_text(rsa_public_half(private_key));
    pem is Some && is_public_key_pem(pem->0) && url == login_url(pem->0)
}

/// What the decryption of the reply `body` gives to an attempt that holds
/// `private_key`: the token, or why there is none. An attempt without a key
/// has no business decrypting.
pub open spec fn decrypt_outcome(
    private_key: Option<rsa::RsaPrivateKey>,
    body: Seq<char>,
) -> AuthEventView {
    match private_key {
        None => AuthEventView::TokenRejected { error: AuthErrorView::OutOfOrder },
        Some(key) => match token_of_exchange(body, key) {
            Ok(token) => AuthEventView::TokenDecrypted { token },
            Err(error) => AuthEventView::TokenRejected { error },
        },
    }
}

/// Whether a login in `state` is past the decryption, so that it holds no
/// key any more.
pub open spec fn is_past_decryption(state: AuthStateView) -> bool {
    state is Persisting || state is Authenticated || state is Failed
}

/// A login attempt: the login's state, and the private key that the attempt
/// owns from the generation of the pair to the decryption of the token.
pub struct LoginAttempt {
    state: AuthState,
    private_key: Option<rsa::RsaPrivateKey>,
    key_bits: usize,
}

impl LoginAttempt {
    /// Where the login stands.
    pub closed spec fn spec_state(&self) -> AuthStateView {
        self.state@
    }

    /// Where the login stands.
    pub fn state(&self) -> (r: &AuthState)
        ensures
            r@ == self.spec_state(),
    {
        &self.state
    }

    /// The private key that the attempt holds, if it holds one.
    pub closed spec fn spec_private_key(&self) -> Option<rsa::RsaPrivateKey> {
        self.private_key
    }

    /// Whether the attempt holds a private key.
    pub open spec fn has_key(&self) -> bool {
        self.spec_private_key() is Some
    }

    /// The modulus length of the keys that the attempt generates.
    pub closed spec fn spec_key_bits(&self) -> usize {
        self.key_bits
    }

    /// Ends the attempt: where the login stands, without the key.
    pub fn into_state(self) -> (r: AuthState)
        ensures
            r@ == self.spec_state(),
    {
        self.state
    }

    /// An attempt that has not begun, with keys of [`KEY_BITS`] bits.
    pub fn new() -> (r: LoginAttempt)
        ensures
            r.spec_state() == AuthStateView::Start,
            !r.has_key(),
            r.spec_key_bits() == KEY_BITS,
    {
        LoginAttempt { state: AuthState::Start, private_key: None, key_bits: KEY_BITS }
    }

    /// An attempt that has not begun, with keys of `key_bits` bits.
    pub fn with_key_bits(key_bits: usize) -> (r: LoginAttempt)
        ensures
            r.spec_state() == AuthStateView::Start,
            !r.has_key(),
            r.spec_key_bits() == key_bits,
    {
        LoginAttempt { state: AuthState::Start, private_key: None, key_bits }
    }

    /// Takes one step of the login. The private key is dropped as soon as
    /// the login is past the decryption.
    pub fn step(self, event: AuthEvent) -> (r: (LoginAttempt, AuthAction))
        ensures
            r.0.spec_state() == auth_next(self.spec_state(), event@).0,
            r.1@ == auth_next(self.spec_state(), event@).1,
            r.0.spec_key_bits() == self.spec_key_bits(),
            r.0.spec_private_key() == if is_past_decryption(r.0.spec_state()) {
                None
            } else {
                self.spec_private_key()
            },
    {
        let key_bits = self.key_bits;
        let (state, action) = self.state.step(event);
        let private_key = match &state {
            AuthState::Persisting { .. } => None,
            AuthState::Authenticated { .. } => None,
            AuthState::Failed { .. } => None,
            _ => self.private_key,
        };
        (LoginAttempt { state, private_key, key_bits }, action)
    }

    /// Performs `action` where it is a matter of keys, and says what came
    /// of it; `None` for an action that is the driver's to perform.
    ///
    /// Generating the keys gives the login page for the public half of the
    /// key that the attempt then holds, or the error; a key length below
    /// [`MIN_KEY_BITS`] is such an error. Decrypting uses the key up and
    /// gives what [`decrypt_outcome`] says.
    pub fn perform(self, action: &AuthAction) -> (r: (LoginAttempt, Option<AuthEvent>))
        ensures
            r.0.spec_state() == self.spec_state(),
            r.0.spec_key_bits() == self.spec_key_bits(),
            match action@ {
                AuthActionView::GenerateKeys => r.1 is Some && match r.1->0@ {
                    AuthEventView::KeysReady { login_url } => self.spec_key_bits() >= MIN_KEY_BITS
                        && r.0.has_key() && rsa_modulus_bits(r.0.spec_private_key()->0)
                        == self.spec_key_bits() && is_login_url_of(
                        login_url,
                        r.0.spec_private_key()->0,
                    ),
                    AuthEventView::KeysFailed { error } => !r.0.has_key() && (error
                        == CryptoError::KeyGeneration || (error == CryptoError::Encoding
                        && self.spec_key_bits() >= MIN_KEY_BITS)),
                    _ => false,
                },
                AuthActionView::Decrypt { body } => r.1 is Some && !r.0.has_key() && r.1->0@
                    == decrypt_outcome(self.spec_private_key(), body),
                _ => r.1 is None && r.0.spec_private_key() == self.spec_private_key(),
            },
    {
        let key_bits = self.key_bits;
        let state = self.state;
        match action {
            AuthAction::GenerateKeys => {
                match generate_key_pair_of(key_bits) {
                    Err(error) => (
                        LoginAttempt { state, private_key: None, key_bits },
                        Some(AuthEvent::KeysFailed { error }),
                    ),
                    Ok((private_key, public_key)) => match get_public_key_pem(&public_key) {
                        Err(error) => (
                            LoginAttempt { state, private_key: None, key_bits },
                            Some(AuthEvent::KeysFailed { error }),
                        ),
                        Ok(pem) => {
                            let login_url = build_login_url(pem.as_str());
                            (
                                LoginAttempt { state, private_key: Some(private_key), key_bits },
                                Some(AuthEvent::KeysReady { login_url }),
                            )
                        },
                    },
                }
            },
            AuthAction::Decrypt { body } => {
                let event = match &self.private_key {
                    None => AuthEvent::TokenRejected { error: AuthError::OutOfOrder },
                    Some(private_key) => match token_from_exchange(body.as_str(), private_key) {
                        Ok(token) => AuthEvent::TokenDecrypted { token },
                        Err(error) => AuthEvent::TokenRejected { error },
                    },
                };
                (LoginAttempt { state, private_key: None, key_bits }, Some(event))
            },
            _ => (LoginAttempt { state, private_key: self.private_key, key_bits }, None),
        }
    }
}

} // verus!
