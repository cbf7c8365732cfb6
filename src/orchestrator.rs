//! The per-request retry loop as a state machine: the caller performs each
//! action (acquire an account, call upstream, reply) and hands back what
//! happened; the loop decides what comes next.
use vstd::prelude::*;
use crate::json::{Json, JsonValue, get};
use crate::normalize::{add_recovery_prompt, normalize_request, normalized, str_or, with_recovery_prompt, NormalizeError};
use crate::routing::{resolve_model_route, route};
use crate::peek::{PeekFailure, failure_message, failure_text};
use crate::retry::{
    attempts_for, delay_of, determine_retry_strategy, is_rate_limit_status, is_signature_failure,
    max_attempts, parse_decimal, rate_limit_status, rotating_status, should_rotate_account,
    signature_failure, strategy_for, decimal_value,
};

verus! {

/// What happened since the last action.
pub enum Event {
    /// The token manager handed out the account with this email.
    TokenGranted(String),
    /// The token manager failed with this message.
    TokenFailed(String),
    /// The upstream call failed before any reply, with this message.
    NetworkFailed(String),
    /// Upstream replied with a failure status, an optional `Retry-After`
    /// header and a body.
    UpstreamFailed { status: u16, retry_after: Option<String>, body: String },
    /// Upstream replied with success, but the peek over its stream gave up.
    PeekFailed(PeekFailure),
    /// Upstream replied with success and the peek found the first data chunk.
    StreamReady,
}

/// What the body of a reply is made of.
pub enum ReplyBody {
    /// This text.
    Text(String),
    /// The peeked event stream, forwarded as it comes.
    EventStream,
    /// The stream collected into one JSON response.
    Collected,
}

/// A reply to the client.
pub struct Reply {
    pub status: u16,
    pub headers: Vec<(String, String)>,
    pub body: ReplyBody,
}

/// What to do next.
pub enum Action {
    /// Wait `delay_ms`, then ask the token manager for an account.
    AcquireToken { force_rotate: bool, delay_ms: u64 },
    /// Wait `delay_ms`, then call upstream with the current request on the
    /// current account.
    CallUpstream { delay_ms: u64 },
    /// Send this reply; the loop is over.
    Respond(Reply),
}

/// A rate-limit report for the token manager.
pub struct RateLimitMark {
    pub email: String,
    pub status: u16,
    pub retry_after: Option<String>,
    pub error_text: String,
    pub mapped_model: String,
}

/// The outcome of one event.
pub struct Step {
    /// Report this account as rate limited.
    pub mark_rate_limited: Option<RateLimitMark>,
    /// Report success of the account with this email.
    pub mark_success: Option<String>,
    pub action: Action,
}

/// Where the loop stands.
pub enum Phase {
    /// Waiting for the token manager.
    AwaitingToken,
    /// Waiting for the upstream call and the peek.
    AwaitingUpstream,
    /// A reply was sent.
    Done,
}

/// The state of one request's retry loop.
pub struct RetryLoop {
    /// The upstream model, reported on every reply.
    pub mapped_model: String,
    /// Whether the client asked for an event stream.
    pub client_wants_stream: bool,
    /// The attempt budget.
    pub max_attempts: usize,
    /// The zero-based index of the current attempt.
    pub attempt: usize,
    /// How many upstream calls were asked for.
    pub upstream_calls: usize,
    /// The canonical request, amended by signature recovery.
    pub request: JsonValue,
    /// The message of the latest failure.
    pub last_error: String,
    /// The account of the current attempt, once one was granted.
    pub email: Option<String>,
    pub phase: Phase,
}

/// The decimal digits of `n`.
pub open spec fn decimal_text(n: nat) -> Seq<char>
    decreases n,
{
    if n < 10 {
        seq![(('0' as u32) + n) as char]
    } else {
        decimal_text(n / 10) + seq![(('0' as u32) + (n % 10)) as char]
    }
}

/// `HTTP <status>: <body>`
pub open spec fn http_error_text(status: u16, body: Seq<char>) -> Seq<char> {
    "HTTP "@ + decimal_text(status as nat) + ": "@ + body
}

/// The text of the reply once every attempt has failed.
pub open spec fn exhausted_text(last_error: Seq<char>) -> Seq<char> {
    "All accounts exhausted. Last error: "@ + last_error
}

/// The text of the reply when no account can be had.
pub open spec fn token_error_text(msg: Seq<char>) -> Seq<char> {
    "Token error: "@ + msg
}

/// The views of a header list.
pub open spec fn header_views(h: Seq<(String, String)>) -> Seq<(Seq<char>, Seq<char>)> {
    h.map_values(|p: (String, String)| (p.0@, p.1@))
}

/// The headers of every reply: the mapped model, and the account when one was granted.
pub open spec fn base_headers(mapped: Seq<char>, email: Option<Seq<char>>) -> Seq<(Seq<char>, Seq<char>)> {
    seq![("X-Mapped-Model"@, mapped)] + match email {
        Some(e) => seq![("X-Account-Email"@, e)],
        None => Seq::empty(),
    }
}

/// The extra headers of an event-stream reply.
pub open spec fn stream_headers() -> Seq<(Seq<char>, Seq<char>)> {
    seq![
        ("Content-Type"@, "text/event-stream"@),
        ("Cache-Control"@, "no-cache"@),
        ("Connection"@, "keep-alive"@),
        ("X-Accel-Buffering"@, "no"@),
    ]
}

/// The view of an optional string.
pub open spec fn opt_text(o: Option<String>) -> Option<Seq<char>> {
    match o {
        Some(s) => Some(s@),
        None => None,
    }
}

/// The reply has status `status`, the headers `h` and the text `t`.
pub open spec fn text_reply(a: Action, status: u16, h: Seq<(Seq<char>, Seq<char>)>, t: Seq<char>) -> bool {
    match a {
        Action::Respond(r) => r.status == status && header_views(r.headers@) == h && match r.body {
            ReplyBody::Text(b) => b@ == t,
            _ => false,
        },
        _ => false,
    }
}

/// The action that follows a failed attempt: another attempt, with `rotate`
/// and `delay`, while the budget lasts, else the exhausted reply.
pub open spec fn retry_action(s: RetryLoop, rotate: bool, delay: int, last_error: Seq<char>, a: Action) -> bool {
    if s.attempt + 1 < s.max_attempts {
        a == Action::AcquireToken { force_rotate: rotate, delay_ms: delay as u64 }
    } else {
        text_reply(a, 429, base_headers(s.mapped_model@, opt_text(s.email)), exhausted_text(last_error))
    }
}

impl RetryLoop {
    /// The loop's invariant.
    pub open spec fn wf(&self) -> bool {
        &&& 2 <= self.max_attempts <= crate::retry::MAX_RETRY_ATTEMPTS
        &&& self.upstream_calls <= self.max_attempts
        &&& (!(self.phase is Done) ==> self.attempt < self.max_attempts)
        &&& (self.phase is AwaitingToken ==> self.upstream_calls == self.attempt)
        &&& (self.phase is AwaitingUpstream ==> self.upstream_calls == self.attempt + 1 && self.email is Some)
    }

    /// Whether `e` is an event the loop waits for in its current phase.
    pub open spec fn expects(&self, e: Event) -> bool {
        match self.phase {
            Phase::AwaitingToken => e is TokenGranted || e is TokenFailed,
            Phase::AwaitingUpstream => e is NetworkFailed || e is UpstreamFailed || e is PeekFailed || e is StreamReady,
            Phase::Done => false,
        }
    }

    /// A new loop for a canonical request, an account pool of `pool_size`
    /// and the upstream model `mapped_model`; the first action asks for an
    /// account without rotation.
    pub fn new(request: JsonValue, client_wants_stream: bool, pool_size: usize, mapped_model: String) -> (r: (RetryLoop, Action))
        ensures
            r.0.wf(),
            r.0.max_attempts == attempts_for(pool_size),
            r.0.attempt == 0,
            r.0.upstream_calls == 0,
            r.0.phase is AwaitingToken,
            r.0.email is None,
            r.0.request == request,
            r.0.mapped_model == mapped_model,
            r.0.client_wants_stream == client_wants_stream,
            r.1 == (Action::AcquireToken { force_rotate: false, delay_ms: 0 }),
    {
        let m = max_attempts(pool_size);
        (
            RetryLoop {
                mapped_model,
                client_wants_stream,
                max_attempts: m,
                attempt: 0,
                upstream_calls: 0,
                request,
                last_error: String::new(),
                email: None,
                phase: Phase::AwaitingToken,
            },
            Action::AcquireToken { force_rotate: false, delay_ms: 0 },
        )
    }

    /// Whether `e` is an event the loop waits for in its current phase.
    pub fn is_expected(&self, e: &Event) -> (r: bool)
        ensures
            r == self.expects(*e),
    {
        match self.phase {
            Phase::AwaitingToken => match e {
                Event::TokenGranted(_) | Event::TokenFailed(_) => true,
                _ => false,
            },
            Phase::AwaitingUpstream => match e {
                Event::TokenGranted(_) | Event::TokenFailed(_) => false,
                _ => true,
            },
            Phase::Done => false,
        }
    }

    fn headers(&self) -> (r: Vec<(String, String)>)
        ensures
            header_views(r@) == base_headers(self.mapped_model@, opt_text(self.email)),
    {
        let mut h: Vec<(String, String)> = Vec::new();
        h.push((String::from_str("X-Mapped-Model"), self.mapped_model.clone()));
        match &self.email {
            Some(e) => {
                h.push((String::from_str("X-Account-Email"), e.clone()));
            },
            None => {},
        }
        assert(header_views(h@) =~= base_headers(self.mapped_model@, opt_text(self.email)));
        h
    }

    /// Ends the current attempt after a failure: starts the next one with
    /// `rotate` and `delay`, or replies that every attempt failed.
    fn next_attempt(&mut self, rotate: bool, delay: u64) -> (a: Action)
        requires
            old(self).wf(),
            old(self).phase is AwaitingUpstream,
        ensures
            final(self).wf(),
            retry_action(*old(self), rotate, delay as int, old(self).last_error@, a),
            final(self).mapped_model == old(self).mapped_model,
            final(self).request == old(self).request,
            final(self).last_error == old(self).last_error,
            final(self).email == old(self).email,
            final(self).upstream_calls == old(self).upstream_calls,
            final(self).max_attempts == old(self).max_attempts,
            final(self).client_wants_stream == old(self).client_wants_stream,
            old(self).attempt + 1 < old(self).max_attempts ==> final(self).phase is AwaitingToken
                && final(self).attempt == old(self).attempt + 1,
            old(self).attempt + 1 >= old(self).max_attempts ==> final(self).phase is Done,
    {
        if self.attempt + 1 < self.max_attempts {
            self.attempt = self.attempt + 1;
            self.phase = Phase::AwaitingToken;
            Action::AcquireToken { force_rotate: rotate, delay_ms: delay }
        } else {
            self.phase = Phase::Done;
            let mut t = String::from_str("All accounts exhausted. Last error: ");
            t.append(self.last_error.as_str());
            Action::Respond(Reply { status: 429, headers: self.headers(), body: ReplyBody::Text(t) })
        }
    }
}

/// The decimal digits of `n`.
pub fn decimal_string(n: u16) -> (r: String)
    ensures
        r@ == decimal_text(n as nat),
    decreases n,
{
    if n < 10 {
        let mut s = String::new();
        s.push(((('0' as u32) + n as u32) as u8) as char);
        assert(s@ =~= decimal_text(n as nat));
        s
    } else {
        let mut s = decimal_string(n / 10);
        s.push(((('0' as u32) + (n % 10) as u32) as u8) as char);
        assert(s@ =~= decimal_text(n as nat));
        s
    }
}


/// The seconds of a `Retry-After` header, when it holds a whole number.
pub open spec fn retry_after_secs(h: Option<String>) -> Option<u64> {
    match h {
        Some(t) => decimal_value(t@),
        None => None,
    }
}

/// The reply has the mapped model as its first header.
pub open spec fn carries_model(a: Action, mapped: Seq<char>) -> bool {
    a matches Action::Respond(r) ==> header_views(r.headers@).len() > 0
        && header_views(r.headers@)[0] == ("X-Mapped-Model"@, mapped)
}

/// The successful reply once the peek found data: an event stream when the
/// client asked for one, else the collected response.
pub open spec fn success_reply(s: RetryLoop, a: Action) -> bool {
    match a {
        Action::Respond(r) => r.status == 200 && if s.client_wants_stream {
            header_views(r.headers@) == base_headers(s.mapped_model@, opt_text(s.email)) + stream_headers()
                && r.body is EventStream
        } else {
            header_views(r.headers@) == base_headers(s.mapped_model@, opt_text(s.email)) && r.body is Collected
        },
        _ => false,
    }
}

/// The outcome the loop owes for event `e` in state `s`, given the next
/// state `t` and the step `st`.
pub open spec fn transition(s: RetryLoop, e: Event, t: RetryLoop, st: Step) -> bool {
    let mapped = s.mapped_model@;
    match e {
        Event::TokenGranted(em) => {
            &&& t.email == Some(em)
            &&& t.phase is AwaitingUpstream
            &&& t.attempt == s.attempt
            &&& t.request == s.request
            &&& st.action == (Action::CallUpstream { delay_ms: 0 })
        },
        Event::TokenFailed(m) => {
            &&& t.phase is Done
            &&& text_reply(st.action, 503, base_headers(mapped, opt_text(s.email)), token_error_text(m@))
        },
        Event::NetworkFailed(m) => {
            &&& t.last_error@ == m@
            &&& t.request == s.request
            &&& retry_action(s, true, 0, m@, st.action)
        },
        Event::UpstreamFailed { status, retry_after, body } => {
            let strategy = strategy_for(status, body@, retry_after_secs(retry_after), s.attempt as u32);
            let err = http_error_text(status, body@);
            &&& t.last_error@ == err
            &&& if signature_failure(status, body@) {
                &&& t.request@ == with_recovery_prompt(s.request@)
                &&& if s.attempt + 1 < s.max_attempts {
                    &&& st.action == (Action::CallUpstream { delay_ms: 0 })
                    &&& t.email == s.email
                    &&& t.attempt == s.attempt + 1
                    &&& t.phase is AwaitingUpstream
                } else {
                    text_reply(st.action, 429, base_headers(mapped, opt_text(s.email)), exhausted_text(err))
                }
            } else if strategy.retries() {
                &&& t.request == s.request
                &&& retry_action(s, rotating_status(status), delay_of(strategy), err, st.action)
            } else {
                &&& t.phase is Done
                &&& text_reply(st.action, status, base_headers(mapped, opt_text(s.email)), body@)
            }
        },
        Event::PeekFailed(f) => {
            &&& t.last_error@ == failure_text(f)
            &&& t.request == s.request
            &&& retry_action(s, true, 0, failure_text(f), st.action)
        },
        Event::StreamReady => {
            &&& t.phase is Done
            &&& opt_text(st.mark_success) == opt_text(s.email)
            &&& success_reply(s, st.action)
        },
    }
}

/// The rate-limit report owed for event `e` in state `s`: one exactly for a
/// failure whose status marks rate limits, naming the current account.
pub open spec fn marks_for(s: RetryLoop, e: Event, st: Step) -> bool {
    match e {
        Event::UpstreamFailed { status, retry_after, body } => if rate_limit_status(status) {
            st.mark_rate_limited matches Some(m) && opt_text(Some(m.email)) == opt_text(s.email)
                && m.status == status && opt_text(m.retry_after) == opt_text(retry_after)
                && m.error_text@ == body@ && m.mapped_model@ == s.mapped_model@
        } else {
            st.mark_rate_limited is None
        },
        _ => st.mark_rate_limited is None,
    }
}

fn clone_opt(o: &Option<String>) -> (r: Option<String>)
    ensures
        opt_text(r) == opt_text(*o),
{
    match o {
        Some(s) => Some(s.clone()),
        None => None,
    }
}

impl RetryLoop {
    /// Takes in what happened and decides what comes next.
    pub fn on_event(&mut self, e: Event) -> (st: Step)
        requires
            old(self).wf(),
            old(self).expects(e),
        ensures
            final(self).wf(),
            final(self).mapped_model == old(self).mapped_model,
            final(self).max_attempts == old(self).max_attempts,
            final(self).client_wants_stream == old(self).client_wants_stream,
            carries_model(st.action, old(self).mapped_model@),
            st.action is Respond <==> final(self).phase is Done,
            st.action is CallUpstream ==> final(self).upstream_calls == old(self).upstream_calls + 1,
            !(st.action is CallUpstream) ==> final(self).upstream_calls == old(self).upstream_calls,
            marks_for(*old(self), e, st),
            !(e is StreamReady) ==> st.mark_success is None,
            transition(*old(self), e, *final(self), st),
    {
        match e {
            Event::TokenGranted(em) => {
                self.email = Some(em);
                self.phase = Phase::AwaitingUpstream;
                self.upstream_calls = self.upstream_calls + 1;
                Step { mark_rate_limited: None, mark_success: None, action: Action::CallUpstream { delay_ms: 0 } }
            },
            Event::TokenFailed(m) => {
                self.phase = Phase::Done;
                let mut t = String::from_str("Token error: ");
                t.append(m.as_str());
                let r = Reply { status: 503, headers: self.headers(), body: ReplyBody::Text(t) };
                Step { mark_rate_limited: None, mark_success: None, action: Action::Respond(r) }
            },
            Event::NetworkFailed(m) => {
                self.last_error = m;
                let a = self.next_attempt(true, 0);
                Step { mark_rate_limited: None, mark_success: None, action: a }
            },
            Event::UpstreamFailed { status, retry_after, body } => {
                let mut err = String::from_str("HTTP ");
                err.append(decimal_string(status).as_str());
                err.append(": ");
                err.append(body.as_str());
                assert(err@ =~= http_error_text(status, body@));
                self.last_error = err;
                let mark = if is_rate_limit_status(status) {
                    let em = match &self.email {
                        Some(x) => x.clone(),
                        None => String::new(),
                    };
                    Some(RateLimitMark {
                        email: em,
                        status,
                        retry_after: clone_opt(&retry_after),
                        error_text: body.clone(),
                        mapped_model: self.mapped_model.clone(),
                    })
                } else {
                    None
                };
                let secs = match &retry_after {
                    Some(h) => parse_decimal(h.as_str()),
                    None => None,
                };
                let strategy = determine_retry_strategy(status, body.as_str(), secs, self.attempt as u32);
                if is_signature_failure(status, body.as_str()) {
                    self.request = add_recovery_prompt(&self.request);
                    if self.attempt + 1 < self.max_attempts {
                        self.attempt = self.attempt + 1;
                        self.upstream_calls = self.upstream_calls + 1;
                        Step { mark_rate_limited: mark, mark_success: None, action: Action::CallUpstream { delay_ms: 0 } }
                    } else {
                        let a = self.next_attempt(false, 0);
                        Step { mark_rate_limited: mark, mark_success: None, action: a }
                    }
                } else if strategy.permits_retry() {
                    let a = self.next_attempt(should_rotate_account(status), strategy.delay_ms());
                    Step { mark_rate_limited: mark, mark_success: None, action: a }
                } else {
                    self.phase = Phase::Done;
                    let r = Reply { status, headers: self.headers(), body: ReplyBody::Text(body) };
                    Step { mark_rate_limited: mark, mark_success: None, action: Action::Respond(r) }
                }
            },
            Event::PeekFailed(f) => {
                self.last_error = failure_message(&f);
                let a = self.next_attempt(true, 0);
                Step { mark_rate_limited: None, mark_success: None, action: a }
            },
            Event::StreamReady => {
                self.phase = Phase::Done;
                let mut h = self.headers();
                if self.client_wants_stream {
                    let ghost h0 = h@;
                    h.push((String::from_str("Content-Type"), String::from_str("text/event-stream")));
                    h.push((String::from_str("Cache-Control"), String::from_str("no-cache")));
                    h.push((String::from_str("Connection"), String::from_str("keep-alive")));
                    h.push((String::from_str("X-Accel-Buffering"), String::from_str("no")));
                    assert(header_views(h@) =~= header_views(h0) + stream_headers());
                    let r = Reply { status: 200, headers: h, body: ReplyBody::EventStream };
                    Step { mark_rate_limited: None, mark_success: clone_opt(&self.email), action: Action::Respond(r) }
                } else {
                    let r = Reply { status: 200, headers: h, body: ReplyBody::Collected };
                    Step { mark_rate_limited: None, mark_success: clone_opt(&self.email), action: Action::Respond(r) }
                }
            },
        }
    }
}


/// In every state the loop reaches (it starts well formed and each event
/// keeps it so), at most `max(2, min(3, pool_size + 1))` upstream calls have
/// been asked for.
pub proof fn lemma_upstream_calls_bounded(s: RetryLoop, pool_size: usize)
    requires
        s.wf(),
        s.max_attempts == attempts_for(pool_size),
    ensures
        s.upstream_calls <= attempts_for(pool_size),
        attempts_for(pool_size) == (if pool_size + 1 < 3 { if pool_size + 1 < 2 { 2 } else { pool_size + 1 } } else { 3 }),
{
}

/// An empty account pool still gives two attempts.
pub proof fn lemma_empty_pool_attempts()
    ensures
        attempts_for(0) == 2,
{
}

/// A signature failure is retried on the same account without asking for
/// another; any other failure whose status rotates, when retried, asks the
/// token manager for a different account.
pub proof fn lemma_rotation(s: RetryLoop, status: u16, retry_after: Option<String>, body: String, t: RetryLoop, st: Step)
    requires
        s.wf(),
        s.phase is AwaitingUpstream,
        s.attempt + 1 < s.max_attempts,
        transition(s, Event::UpstreamFailed { status, retry_after, body }, t, st),
    ensures
        signature_failure(status, body@) ==> st.action == (Action::CallUpstream { delay_ms: 0 }) && t.email == s.email,
        rotating_status(status) ==> (st.action matches Action::AcquireToken { force_rotate, delay_ms } && force_rotate),
{
}

/// A failure before any reply, or a stream that gives no data, is retried
/// on a different account while attempts remain.
pub proof fn lemma_stream_failure_rotates(s: RetryLoop, e: Event, t: RetryLoop, st: Step)
    requires
        s.wf(),
        s.phase is AwaitingUpstream,
        s.attempt + 1 < s.max_attempts,
        e is NetworkFailed || e is PeekFailed,
        transition(s, e, t, st),
    ensures
        (st.action matches Action::AcquireToken { force_rotate, delay_ms } && force_rotate),
{
}


/// The client's model name: the `model` string, empty when absent.
pub open spec fn client_model(body: Json) -> Seq<char> {
    str_or(body, "model"@, Seq::empty())
}

/// Whether the client asked for an event stream.
pub open spec fn wants_stream(body: Json) -> bool {
    get(body, "stream"@) == Some(Json::Bool(true))
}

/// Starts the retry loop for a request body: normalizes it, resolves the
/// upstream model through the user mapping and the built-in aliases, and
/// asks for a first account. A body that is not an object is rejected.
pub fn start_request(body: &JsonValue, pool_size: usize, user: &Vec<(String, String)>, builtin: &Vec<(String, String)>) -> (r: Result<(RetryLoop, Action), NormalizeError>)
    ensures
        match r {
            Ok((lp, a)) => {
                &&& body@ is Object
                &&& lp.wf()
                &&& lp.mapped_model@ == route(client_model(body@), user@, builtin@)
                &&& lp.request@ == normalized(body@)
                &&& lp.client_wants_stream == wants_stream(body@)
                &&& lp.max_attempts == attempts_for(pool_size)
                &&& lp.phase is AwaitingToken
                &&& lp.upstream_calls == 0
                &&& a == (Action::AcquireToken { force_rotate: false, delay_ms: 0 })
            },
            Err(_) => !(body@ is Object),
        },
{
    let request = match normalize_request(body) {
        Ok(v) => v,
        Err(e) => {
            return Err(e);
        },
    };
    proof {
        reveal_strlit("");
    }
    let model = match body.get_str("model") {
        Some(m) => m.clone(),
        None => String::new(),
    };
    let stream = match body.get("stream") {
        Some(JsonValue::Bool(b)) => *b,
        _ => false,
    };
    let mapped = resolve_model_route(model.as_str(), user, builtin);
    let (lp, a) = RetryLoop::new(request, stream, pool_size, mapped);
    Ok((lp, a))
}

/// Every reply of a loop started for a request names the upstream model
/// that the router gives for the request's model, and each event keeps it.
pub proof fn lemma_reply_names_route(s: RetryLoop, e: Event, t: RetryLoop, st: Step, model: Seq<char>, user: Seq<(String, String)>, builtin: Seq<(String, String)>)
    requires
        s.mapped_model@ == route(model, user, builtin),
        t.mapped_model == s.mapped_model,
        carries_model(st.action, s.mapped_model@),
    ensures
        t.mapped_model@ == route(model, user, builtin),
        st.action matches Action::Respond(r) ==> header_views(r.headers@)[0] == ("X-Mapped-Model"@, route(model, user, builtin)),
{
}

} // verus!
