//! The one-shot loopback listener of the login handshake: reading the
//! redirect that carries the authorization code, and deciding, poll by poll,
//! whether to go on waiting.

use crate::netlify::{LoginError, LoginErrorView};
use crate::text::{
    decimal, decimal_string, find_nth_word, join_text, nth_word, pairs_view, same_text, substring,
    to_chars,
};
use vstd::prelude::*;
use vstd::string::StringSliceAdditionalSpecFns;

verus! {

/// The authorization code and the state nonce of a redirect. Both are
/// non-empty: a redirect that lacks either is no callback.
#[derive(Debug)]
pub struct AuthCallback {
    pub authorization_code: String,
    pub state: String,
}

/// An [`AuthCallback`] as the contracts see it: the code, then the state.
pub type CallbackModel = (Seq<char>, Seq<char>);

impl View for AuthCallback {
    type V = CallbackModel;

    open spec fn view(&self) -> CallbackModel {
        (self.authorization_code@, self.state@)
    }
}

impl AuthCallback {
    /// The callback's invariant: neither field is empty.
    pub open spec fn wf(&self) -> bool {
        self.authorization_code@.len() > 0 && self.state@.len() > 0
    }
}

/// The position of the first line feed of `s` at or after `i`, or the length
/// of `s` where there is none.
pub open spec fn line_end(s: Seq<char>, i: int) -> int
    decreases s.len() - i,
{
    if 0 <= i < s.len() && s[i] != '\n' {
        line_end(s, i + 1)
    } else {
        i
    }
}

/// The first line of `s`, without its line feed.
pub open spec fn first_line(s: Seq<char>) -> Seq<char> {
    s.take(line_end(s, 0))
}

/// The request target of the HTTP request `request`: the second word of its
/// first line.
pub open spec fn request_target(request: Seq<char>) -> Option<Seq<char>> {
    match nth_word(first_line(request), 0, 1) {
        Some((start, end)) => Some(first_line(request).subrange(start, end)),
        None => None,
    }
}

/// [`line_end`] stays inside the text.
pub proof fn lemma_line_end(s: Seq<char>, i: int)
    requires
        0 <= i <= s.len(),
    ensures
        i <= line_end(s, i) <= s.len(),
        forall|k: int| i <= k < line_end(s, i) ==> #[trigger] s[k] != '\n',
        line_end(s, i) < s.len() ==> s[line_end(s, i)] == '\n',
    decreases s.len() - i,
{
    if i < s.len() && s[i] != '\n' {
        lemma_line_end(s, i + 1);
    }
}

/// Extracts the request target from the text of an HTTP request.
pub fn request_path(request: &str) -> (r: Option<String>)
    ensures
        match r {
            Some(path) => request_target(request@) == Some(path@) && path@.len() > 0,
            None => request_target(request@) is None,
        },
{
    let mut line = to_chars(request);
    let mut end: usize = 0;
    while end < line.len() && line[end] != '\n'
        invariant
            end <= line.len(),
            line@ == request@,
            line_end(request@, 0) == line_end(request@, end as int),
        decreases line.len() - end,
    {
        end += 1;
    }
    line.truncate(end);
    assert(line@ =~= first_line(request@));
    match find_nth_word(&line, 0, 1) {
        Some((start, stop)) => Some(substring(&line, start, stop)),
        None => None,
    }
}

/// The key-value pairs of the query string of the absolute URL `url`, decoded
/// as the `url` crate decodes them; `None` where it does not accept `url`.
pub uninterp spec fn url_query_pairs(url: Seq<char>) -> Option<Seq<(Seq<char>, Seq<char>)>>;

/// Calls `reqwest::Url::parse` and, on the URL it gives, `Url::query_pairs`:
/// the decoded key-value pairs of the query string in order, or `None` where
/// the text is no absolute URL. The contract only names that result.
#[verifier::external_body]
fn parse_query_pairs(url: &str) -> (r: Option<Vec<(String, String)>>)
    ensures
        match r {
            Some(pairs) => url_query_pairs(url@) == Some(pairs_view(pairs@)),
            None => url_query_pairs(url@) is None,
        },
{
    match reqwest::Url::parse(url) {
        Ok(parsed) => {
            let mut pairs = Vec::new();
            for (key, value) in parsed.query_pairs() {
                pairs.push((key.into_owned(), value.into_owned()));
            }
            Some(pairs)
        },
        Err(_) => None,
    }
}

/// Whether `i` is the last position of `pairs` whose key is `key`.
pub open spec fn is_last_with_key(
    pairs: Seq<(Seq<char>, Seq<char>)>,
    key: Seq<char>,
    i: int,
) -> bool {
    &&& 0 <= i < pairs.len()
    &&& pairs[i].0 == key
    &&& forall|j: int| i < j < pairs.len() ==> (#[trigger] pairs[j]).0 != key
}

/// The value of the last pair of `pairs` whose key is `key`.
pub open spec fn last_value(pairs: Seq<(Seq<char>, Seq<char>)>, key: Seq<char>) -> Option<
    Seq<char>,
>
    decreases pairs.len(),
{
    if pairs.len() == 0 {
        None
    } else if pairs.last().0 == key {
        Some(pairs.last().1)
    } else {
        last_value(pairs.drop_last(), key)
    }
}

/// [`last_value`] is the value at the last position that holds the key, and
/// `None` exactly where no position holds it.
pub proof fn lemma_last_value(pairs: Seq<(Seq<char>, Seq<char>)>, key: Seq<char>)
    ensures
        last_value(pairs, key) is None <==> forall|i: int|
            0 <= i < pairs.len() ==> (#[trigger] pairs[i]).0 != key,
        forall|i: int|
            is_last_with_key(pairs, key, i) ==> last_value(pairs, key) == Some(
                (#[trigger] pairs[i]).1,
            ),
    decreases pairs.len(),
{
    if pairs.len() > 0 {
        let rest = pairs.drop_last();
        lemma_last_value(rest, key);
        if pairs.last().0 != key {
            assert forall|i: int| 0 <= i < pairs.len() && last_value(pairs, key) is None implies (
            #[trigger] pairs[i]).0 != key by {
                if i < rest.len() {
                    assert(rest[i] == pairs[i]);
                }
            }
            if last_value(pairs, key) is Some {
                let i = choose|i: int| 0 <= i < rest.len() && (#[trigger] rest[i]).0 == key;
                assert(pairs[i].0 == key);
            }
            assert forall|i: int| is_last_with_key(pairs, key, i) implies last_value(pairs, key)
                == Some((#[trigger] pairs[i]).1) by {
                assert(rest[i] == pairs[i]);
                assert forall|j: int| i < j < rest.len() implies (#[trigger] rest[j]).0 != key by {
                    assert(rest[j] == pairs[j]);
                }
                assert(is_last_with_key(rest, key, i));
            }
        } else {
            assert(pairs[pairs.len() - 1].0 == key);
            assert forall|i: int| is_last_with_key(pairs, key, i) implies last_value(pairs, key)
                == Some((#[trigger] pairs[i]).1) by {
                if i < pairs.len() - 1 {
                    assert(pairs[pairs.len() - 1].0 != key);
                }
            }
        }
    }
}

/// The callback that the query pairs `pairs` carry: the last `code` and the
/// last `state`, where both are present and neither is empty.
pub open spec fn callback_of_pairs(pairs: Seq<(Seq<char>, Seq<char>)>) -> Option<CallbackModel> {
    match (last_value(pairs, "code"@), last_value(pairs, "state"@)) {
        (Some(code), Some(state)) => if code.len() > 0 && state.len() > 0 {
            Some((code, state))
        } else {
            None
        },
        _ => None,
    }
}

/// The absolute URL under which a request target is read.
pub open spec fn loopback_url(target: Seq<char>) -> Seq<char> {
    "http://localhost"@ + target
}

/// The callback that the HTTP request `request` carries, if it carries one.
pub open spec fn callback_of_request(request: Seq<char>) -> Option<CallbackModel> {
    match request_target(request) {
        Some(target) => match url_query_pairs(loopback_url(target)) {
            Some(pairs) => callback_of_pairs(pairs),
            None => None,
        },
        None => None,
    }
}

/// The value of the last pair whose key is `key`.
fn find_last_value<'a>(pairs: &'a Vec<(String, String)>, key: &str) -> (r: Option<&'a String>)
    ensures
        match r {
            Some(value) => last_value(pairs_view(pairs@), key@) == Some(value@),
            None => last_value(pairs_view(pairs@), key@) is None,
        },
{
    let ghost model = pairs_view(pairs@);
    let mut i: usize = pairs.len();
    proof {
        assert(model.take(i as int) =~= model);
    }
    while i > 0
        invariant
            i <= pairs.len(),
            model == pairs_view(pairs@),
            last_value(model, key@) == last_value(model.take(i as int), key@),
        decreases i,
    {
        i -= 1;
        proof {
            assert(model.take(i + 1).drop_last() =~= model.take(i as int));
            assert(model.take(i + 1).last() == model[i as int]);
        }
        if same_text(pairs[i].0.as_str(), key) {
            return Some(&pairs[i].1);
        }
    }
    None
}

/// Picks the authorization code and the state nonce out of decoded query
/// pairs. A later pair of the same key wins; a missing or empty code or state
/// means that there is no callback.
pub fn callback_from_pairs(pairs: &Vec<(String, String)>) -> (r: Option<AuthCallback>)
    ensures
        match r {
            Some(callback) => callback.wf() && callback_of_pairs(pairs_view(pairs@)) == Some(
                callback@,
            ),
            None => callback_of_pairs(pairs_view(pairs@)) is None,
        },
{
    let code = find_last_value(pairs, "code");
    let state = find_last_value(pairs, "state");
    match (code, state) {
        (Some(code), Some(state)) => {
            if code.as_str().unicode_len() > 0 && state.as_str().unicode_len() > 0 {
                Some(AuthCallback { authorization_code: code.clone(), state: state.clone() })
            } else {
                None
            }
        },
        _ => None,
    }
}

/// Reads the callback out of the text of an HTTP request, if it carries one.
pub fn parse_callback(request: &str) -> (r: Option<AuthCallback>)
    ensures
        match r {
            Some(callback) => callback.wf() && callback_of_request(request@) == Some(callback@),
            None => callback_of_request(request@) is None,
        },
{
    match request_path(request) {
        Some(target) => {
            let mut url = String::from_str("http://localhost");
            url.append(target.as_str());
            match parse_query_pairs(url.as_str()) {
                Some(pairs) => callback_from_pairs(&pairs),
                None => None,
            }
        },
        None => None,
    }
}

/// The page that tells the user that the login went through is served as
/// this response: status line, content type, the body's length in bytes, and
/// the body.
pub open spec fn http_ok_response(body: Seq<char>) -> Seq<char> {
    "HTTP/1.1 200 OK\r\nContent-Type: text/html; charset=UTF-8\r\nContent-Length: "@ + decimal(
        vstd::utf8::encode_utf8(body).len(),
    ) + "\r\n\r\n"@ + body
}

/// The HTTP response that serves the HTML page `body` to the browser.
pub fn callback_response(body: &str) -> (r: String)
    ensures
        r@ == http_ok_response(body@),
{
    let length = body.as_bytes().len();
    assert(length == vstd::utf8::encode_utf8(body@).len());
    let mut out = join_text(
        "HTTP/1.1 200 OK\r\nContent-Type: text/html; charset=UTF-8\r\nContent-Length: ",
        decimal_string(length).as_str(),
    );
    out.append("\r\n\r\n");
    out.append(body);
    assert(out@ =~= http_ok_response(body@));
    out
}

/// How long the listener waits for the callback unless told otherwise.
pub const CALLBACK_TIMEOUT_MILLIS: u64 = 15000;

/// How long the listener sleeps between two polls that found no connection.
pub const POLL_INTERVAL_MILLIS: u64 = 100;

/// The loopback port that the provider redirects the browser to.
pub const CALLBACK_PORT: u16 = 8000;

/// Where the listener stands.
#[derive(Debug)]
pub enum ListenerState {
    /// Waiting for a connection that carries a callback.
    Listening,
    /// A callback has arrived; the page is being served.
    Received { callback: AuthCallback },
    /// The callback has been served; no further connection is accepted.
    Done { callback: AuthCallback },
    /// The deadline passed before a callback arrived.
    TimedOut,
    /// The socket failed.
    IoFailure { reason: String },
}

/// A [`ListenerState`] as the contracts see it.
pub enum ListenerStateView {
    Listening,
    Received { callback: CallbackModel },
    Done { callback: CallbackModel },
    TimedOut,
    IoFailure { reason: Seq<char> },
}

impl View for ListenerState {
    type V = ListenerStateView;

    open spec fn view(&self) -> ListenerStateView {
        match *self {
            ListenerState::Listening => ListenerStateView::Listening,
            ListenerState::Received { callback } => ListenerStateView::Received {
                callback: callback@,
            },
            ListenerState::Done { callback } => ListenerStateView::Done { callback: callback@ },
            ListenerState::TimedOut => ListenerStateView::TimedOut,
            ListenerState::IoFailure { reason } => ListenerStateView::IoFailure { reason: reason@ },
        }
    }
}

/// What a poll of the socket found.
#[derive(Debug)]
pub enum ListenerEvent {
    /// No connection is pending.
    NoConnection,
    /// A connection arrived and sent this text.
    Connection { request: String },
    /// A connection arrived, and reading from it failed.
    Unreadable,
    /// Accepting failed for good.
    SocketError { reason: String },
    /// The page has been written to the connection, or writing it failed.
    ResponseWritten,
}

/// A [`ListenerEvent`] as the contracts see it.
pub enum ListenerEventView {
    NoConnection,
    Connection { request: Seq<char> },
    Unreadable,
    SocketError { reason: Seq<char> },
    ResponseWritten,
}

impl View for ListenerEvent {
    type V = ListenerEventView;

    open spec fn view(&self) -> ListenerEventView {
        match *self {
            ListenerEvent::NoConnection => ListenerEventView::NoConnection,
            ListenerEvent::Connection { request } => ListenerEventView::Connection {
                request: request@,
            },
            ListenerEvent::Unreadable => ListenerEventView::Unreadable,
            ListenerEvent::SocketError { reason } => ListenerEventView::SocketError {
                reason: reason@,
            },
            ListenerEvent::ResponseWritten => ListenerEventView::ResponseWritten,
        }
    }
}

/// What the driver of the listener is to do next.
#[derive(Debug, Clone, Copy, PartialEq, Eq, Structural)]
pub enum ListenerAction {
    /// Sleep for [`POLL_INTERVAL_MILLIS`], then poll again.
    Sleep,
    /// Drop the connection, if there is one, and poll again at once.
    Poll,
    /// Serve the page on the connection that carried the callback.
    Respond,
    /// Stop accepting and hand the callback to the caller.
    Deliver,
    /// Stop accepting and report the failure.
    Fail,
}

/// The listener's transition function: the state that follows `state` when
/// a poll made `elapsed` milliseconds after the start found `event`, under a
/// deadline of `timeout` milliseconds, and what the driver is to do then.
pub open spec fn listener_next(
    state: ListenerStateView,
    event: ListenerEventView,
    elapsed: int,
    timeout: int,
) -> (ListenerStateView, ListenerAction) {
    match state {
        ListenerStateView::Done { .. } => (state, ListenerAction::Deliver),
        ListenerStateView::TimedOut => (state, ListenerAction::Fail),
        ListenerStateView::IoFailure { .. } => (state, ListenerAction::Fail),
        ListenerStateView::Received { callback } => (
            ListenerStateView::Done { callback },
            ListenerAction::Deliver,
        ),
        ListenerStateView::Listening => if elapsed >= timeout {
            (ListenerStateView::TimedOut, ListenerAction::Fail)
        } else {
            match event {
                ListenerEventView::NoConnection => (state, ListenerAction::Sleep),
                ListenerEventView::Connection { request } => match callback_of_request(request) {
                    Some(callback) => (
                        ListenerStateView::Received { callback },
                        ListenerAction::Respond,
                    ),
                    None => (state, ListenerAction::Poll),
                },
                ListenerEventView::Unreadable => (state, ListenerAction::Poll),
                ListenerEventView::SocketError { reason } => (
                    ListenerStateView::IoFailure { reason },
                    ListenerAction::Fail,
                ),
                ListenerEventView::ResponseWritten => (state, ListenerAction::Poll),
            }
        },
    }
}

/// The one-shot listener of a login attempt.
#[derive(Debug)]
pub struct CallbackListener {
    pub state: ListenerState,
    /// The deadline, in milliseconds after the start of the wait.
    pub timeout_millis: u64,
}

impl CallbackListener {
    /// The listener's invariant: a callback that it holds is well formed.
    pub open spec fn wf(&self) -> bool {
        match self.state {
            ListenerState::Received { callback } => callback.wf(),
            ListenerState::Done { callback } => callback.wf(),
            _ => true,
        }
    }

    /// A listener that waits for at most `timeout_millis` milliseconds.
    pub fn new(timeout_millis: u64) -> (r: CallbackListener)
        ensures
            r.state@ == ListenerStateView::Listening,
            r.timeout_millis == timeout_millis,
            r.wf(),
    {
        CallbackListener { state: ListenerState::Listening, timeout_millis }
    }

    /// Takes one step: consumes what a poll made `elapsed_millis`
    /// milliseconds after the start found, and says what to do next.
    pub fn step(self, event: ListenerEvent, elapsed_millis: u64) -> (r: (
        CallbackListener,
        ListenerAction,
    ))
        requires
            self.wf(),
        ensures
            r.0.wf(),
            r.0.timeout_millis == self.timeout_millis,
            r.0.state@ == listener_next(
                self.state@,
                event@,
                elapsed_millis as int,
                self.timeout_millis as int,
            ).0,
            r.1 == listener_next(
                self.state@,
                event@,
                elapsed_millis as int,
                self.timeout_millis as int,
            ).1,
    {
        let timeout_millis = self.timeout_millis;
        let (state, action) = match self.state {
            ListenerState::Done { callback } => (
                ListenerState::Done { callback },
                ListenerAction::Deliver,
            ),
            ListenerState::TimedOut => (ListenerState::TimedOut, ListenerAction::Fail),
            ListenerState::IoFailure { reason } => (
                ListenerState::IoFailure { reason },
                ListenerAction::Fail,
            ),
            ListenerState::Received { callback } => (
                ListenerState::Done { callback },
                ListenerAction::Deliver,
            ),
            ListenerState::Listening => {
                if elapsed_millis >= timeout_millis {
                    (ListenerState::TimedOut, ListenerAction::Fail)
                } else {
                    match event {
                        ListenerEvent::NoConnection => (
                            ListenerState::Listening,
                            ListenerAction::Sleep,
                        ),
                        ListenerEvent::Connection { request } => {
                            match parse_callback(request.as_str()) {
                                Some(callback) => (
                                    ListenerState::Received { callback },
                                    ListenerAction::Respond,
                                ),
                                None => (ListenerState::Listening, ListenerAction::Poll),
                            }
                        },
                        ListenerEvent::Unreadable => (
                            ListenerState::Listening,
                            ListenerAction::Poll,
                        ),
                        ListenerEvent::SocketError { reason } => (
                            ListenerState::IoFailure { reason },
                            ListenerAction::Fail,
                        ),
                        ListenerEvent::ResponseWritten => (
                            ListenerState::Listening,
                            ListenerAction::Poll,
                        ),
                    }
                }
            },
        };
        (CallbackListener { state, timeout_millis }, action)
    }

    /// What the wait came to, once it is over: the callback, or why there is
    /// none. `None` while the listener is still at work.
    pub fn outcome(&self) -> (r: Option<Result<&AuthCallback, LoginError>>)
        ensures
            match self.state@ {
                ListenerStateView::Done { callback } => r is Some && r->0 is Ok && r->0->Ok_0@
                    == callback,
                ListenerStateView::TimedOut => r is Some && r->0 is Err && r->0->Err_0@
                    == LoginErrorView::TimeoutError,
                ListenerStateView::IoFailure { reason } => r is Some && r->0 is Err
                    && r->0->Err_0@ == LoginErrorView::IoError(reason),
                _ => r is None,
            },
    {
        match &self.state {
            ListenerState::Done { callback } => Some(Ok(callback)),
            ListenerState::TimedOut => Some(Err(LoginError::TimeoutError)),
            ListenerState::IoFailure { reason } => Some(Err(LoginError::IoError(reason.clone()))),
            _ => None,
        }
    }
}

/// A poll as the contracts see it: what it found, and how many milliseconds
/// after the start it was made.
pub type Poll = (ListenerEventView, int);

/// The state of a listener that started in `state` after the first `n` of
/// the polls `polls`.
pub open spec fn listener_run(
    state: ListenerStateView,
    polls: Seq<Poll>,
    timeout: int,
    n: int,
) -> ListenerStateView
    decreases n,
{
    if n <= 0 {
        state
    } else {
        listener_next(
            listener_run(state, polls, timeout, n - 1),
            polls[n - 1].0,
            polls[n - 1].1,
            timeout,
        ).0
    }
}

/// A listener to which no connection ever arrives goes on listening as long
/// as every poll is made before the deadline, and has timed out as soon as
/// one poll is made at or after it: it never waits past the first such poll.
pub proof fn lemma_no_connection_times_out(polls: Seq<Poll>, timeout: int, n: int)
    requires
        0 <= n <= polls.len(),
        forall|i: int| 0 <= i < n ==> (#[trigger] polls[i]).0 is NoConnection,
    ensures
        listener_run(ListenerStateView::Listening, polls, timeout, n) == if exists|i: int|
            0 <= i < n && (#[trigger] polls[i]).1 >= timeout {
            ListenerStateView::TimedOut
        } else {
            ListenerStateView::Listening
        },
    decreases n,
{
    if n > 0 {
        lemma_no_connection_times_out(polls, timeout, n - 1);
        assert(polls[n - 1].0 is NoConnection);
        if exists|i: int| 0 <= i < n - 1 && (#[trigger] polls[i]).1 >= timeout {
            let i = choose|i: int| 0 <= i < n - 1 && (#[trigger] polls[i]).1 >= timeout;
            assert(0 <= i < n && polls[i].1 >= timeout);
        } else if polls[n - 1].1 >= timeout {
        } else {
            assert forall|i: int| 0 <= i < n implies !((#[trigger] polls[i]).1 >= timeout) by {
                if i < n - 1 {
                    assert(!(0 <= i < n - 1 && polls[i].1 >= timeout));
                }
            }
        }
    }
}

/// A connection that carries no callback is dropped and the listener keeps
/// listening under the same deadline; a later connection that carries one,
/// made before the deadline, is honored.
pub proof fn lemma_stray_connection_is_ignored(
    stray: Seq<char>,
    good: Seq<char>,
    first: int,
    second: int,
    timeout: int,
)
    requires
        callback_of_request(stray) is None,
        callback_of_request(good) is Some,
        first < timeout,
        second < timeout,
    ensures
        listener_next(
            ListenerStateView::Listening,
            ListenerEventView::Connection { request: stray },
            first,
            timeout,
        ) == (ListenerStateView::Listening, ListenerAction::Poll),
        listener_run(
            ListenerStateView::Listening,
            seq![
                (ListenerEventView::Connection { request: stray }, first),
                (ListenerEventView::Connection { request: good }, second),
            ],
            timeout,
            2,
        ) == (ListenerStateView::Received { callback: callback_of_request(good)->0 }),
{
    let polls = seq![
        (ListenerEventView::Connection { request: stray }, first),
        (ListenerEventView::Connection { request: good }, second),
    ];
    assert(listener_run(ListenerStateView::Listening, polls, timeout, 0)
        == ListenerStateView::Listening);
    assert(listener_run(ListenerStateView::Listening, polls, timeout, 1)
        == ListenerStateView::Listening);
}

/// The listener is one-shot: once a callback has been received, whatever
/// arrives later changes neither the callback nor the outcome.
pub proof fn lemma_one_shot(
    callback: CallbackModel,
    event: ListenerEventView,
    elapsed: int,
    timeout: int,
)
    ensures
        listener_next(ListenerStateView::Received { callback }, event, elapsed, timeout) == (
            ListenerStateView::Done { callback },
            ListenerAction::Deliver,
        ),
        listener_next(ListenerStateView::Done { callback }, event, elapsed, timeout) == (
            ListenerStateView::Done { callback },
            ListenerAction::Deliver,
        ),
{
}

} // verus!
