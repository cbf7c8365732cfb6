use openai_proxy::collector::{collect_stream, sse_payloads, to_legacy_completion};
use openai_proxy::json::JsonValue;
use openai_proxy::orchestrator::{start_request, Action, Event, ReplyBody, RetryLoop, Step};
use openai_proxy::peek::{
    failure_message, is_error_event, is_heartbeat, peek_and_splice, peek_step, PeekFailure, PeekStep, StreamEvent,
};
use openai_proxy::retry::{
    determine_retry_strategy, exponential_delay, is_signature_failure, max_attempts, parse_decimal,
    should_rotate_account, RetryStrategy,
};

fn s(t: &str) -> JsonValue {
    JsonValue::Str(t.to_string())
}

fn obj(fields: Vec<(&str, JsonValue)>) -> JsonValue {
    JsonValue::Object(fields.into_iter().map(|(k, v)| (k.to_string(), v)).collect())
}

fn chat_request() -> JsonValue {
    obj(vec![
        ("model", s("gpt-4o")),
        ("messages", JsonValue::Array(vec![obj(vec![("role", s("user")), ("content", s("hi"))])])),
        ("stream", JsonValue::Bool(false)),
    ])
}

fn headers(a: &Action) -> Vec<(String, String)> {
    match a {
        Action::Respond(r) => r.headers.clone(),
        _ => panic!("not a reply"),
    }
}

fn status(a: &Action) -> u16 {
    match a {
        Action::Respond(r) => r.status,
        _ => panic!("not a reply"),
    }
}

fn body_text(a: &Action) -> String {
    match a {
        Action::Respond(r) => match &r.body {
            ReplyBody::Text(t) => t.clone(),
            _ => panic!("not text"),
        },
        _ => panic!("not a reply"),
    }
}

fn header<'a>(h: &'a [(String, String)], k: &str) -> Option<&'a str> {
    h.iter().find(|(n, _)| n == k).map(|(_, v)| v.as_str())
}

fn is_acquire(a: &Action, rotate: bool, delay: u64) -> bool {
    matches!(a, Action::AcquireToken { force_rotate, delay_ms } if *force_rotate == rotate && *delay_ms == delay)
}

fn is_call(a: &Action) -> bool {
    matches!(a, Action::CallUpstream { delay_ms: 0 })
}

fn failed(status: u16, retry_after: Option<&str>, body: &str) -> Event {
    Event::UpstreamFailed { status, retry_after: retry_after.map(|x| x.to_string()), body: body.to_string() }
}

fn step(lp: &mut RetryLoop, e: Event) -> Step {
    assert!(lp.is_expected(&e));
    lp.on_event(e)
}

fn chunk(delta: &str) -> JsonValue {
    obj(vec![
        ("id", s("chatcmpl-1")),
        ("object", s("chat.completion.chunk")),
        ("created", JsonValue::Number("1700000000".to_string())),
        ("model", s("gpt-4o")),
        (
            "choices",
            JsonValue::Array(vec![obj(vec![
                ("index", JsonValue::Number("0".to_string())),
                ("delta", obj(vec![("content", s(delta))])),
            ])]),
        ),
    ])
}

#[test]
fn retry_classification_follows_status_classes() {
    assert!(matches!(determine_retry_strategy(401, "", None, 0), RetryStrategy::FixedDelay(200)));
    assert!(matches!(determine_retry_strategy(403, "", None, 1), RetryStrategy::FixedDelay(200)));
    assert!(matches!(determine_retry_strategy(429, "", Some(3), 0), RetryStrategy::RetryAfter(3)));
    assert!(matches!(determine_retry_strategy(503, "", Some(2), 0), RetryStrategy::RetryAfter(2)));
    assert!(matches!(
        determine_retry_strategy(529, "", Some(2), 1),
        RetryStrategy::ExponentialBackoff { base_ms: 500, cap_ms: 8000, attempt: 1 }
    ));
    assert!(matches!(
        determine_retry_strategy(500, "", None, 2),
        RetryStrategy::ExponentialBackoff { base_ms: 500, cap_ms: 8000, attempt: 2 }
    ));
    assert!(matches!(determine_retry_strategy(400, "{\"error\":\"Invalid `signature` in block\"}", None, 0), RetryStrategy::FixedDelay(0)));
    assert!(matches!(determine_retry_strategy(400, "bad request", None, 0), RetryStrategy::NoRetry));
    assert!(matches!(determine_retry_strategy(404, "", None, 0), RetryStrategy::NoRetry));
    assert!(matches!(determine_retry_strategy(502, "", None, 0), RetryStrategy::NoRetry));
}

#[test]
fn retry_delays_are_exact() {
    assert_eq!(RetryStrategy::FixedDelay(200).delay_ms(), 200);
    assert_eq!(RetryStrategy::RetryAfter(1).delay_ms(), 1000);
    assert_eq!(RetryStrategy::RetryAfter(u64::MAX).delay_ms(), u64::MAX);
    assert_eq!(exponential_delay(500, 8000, 0), 500);
    assert_eq!(exponential_delay(500, 8000, 1), 1000);
    assert_eq!(exponential_delay(500, 8000, 4), 8000);
    assert_eq!(exponential_delay(500, 8000, 10), 8000);
    assert_eq!(RetryStrategy::NoRetry.delay_ms(), 0);
    assert!(!RetryStrategy::NoRetry.permits_retry());
}

#[test]
fn rotation_statuses() {
    for st in [401u16, 403, 429, 500, 503, 529] {
        assert!(should_rotate_account(st));
    }
    for st in [400u16, 404, 502, 200] {
        assert!(!should_rotate_account(st));
    }
    assert!(is_signature_failure(400, "thinking.signature missing"));
    assert!(is_signature_failure(400, "Corrupted thought signature."));
    assert!(!is_signature_failure(500, "Invalid signature"));
}

#[test]
fn attempt_budget_from_pool_size() {
    assert_eq!(max_attempts(0), 2);
    assert_eq!(max_attempts(1), 2);
    assert_eq!(max_attempts(2), 3);
    assert_eq!(max_attempts(50), 3);
    assert_eq!(max_attempts(usize::MAX), 3);
}

#[test]
fn retry_after_parsing() {
    assert_eq!(parse_decimal("1"), Some(1));
    assert_eq!(parse_decimal("120"), Some(120));
    assert_eq!(parse_decimal(""), None);
    assert_eq!(parse_decimal("1.5"), None);
    assert_eq!(parse_decimal("Wed, 21 Oct 2015 07:28:00 GMT"), None);
    assert_eq!(parse_decimal("18446744073709551616"), None);
}

#[test]
fn non_stream_chat_collects_deltas() {
    let (mut lp, a) = RetryLoop::new(chat_request(), false, 2, "gemini-2.5-flash".to_string());
    assert!(is_acquire(&a, false, 0));
    let st = step(&mut lp, Event::TokenGranted("a@x.com".to_string()));
    assert!(is_call(&st.action));
    let st = step(&mut lp, Event::StreamReady);
    assert_eq!(st.mark_success, Some("a@x.com".to_string()));
    assert_eq!(status(&st.action), 200);
    let h = headers(&st.action);
    assert_eq!(header(&h, "X-Mapped-Model"), Some("gemini-2.5-flash"));
    assert_eq!(header(&h, "X-Account-Email"), Some("a@x.com"));
    assert!(matches!(st.action, Action::Respond(ref r) if matches!(r.body, ReplyBody::Collected)));
    let out = collect_stream(&vec![chunk("he"), chunk("llo")]);
    assert_eq!(
        out.to_json_string(),
        r#"{"id":"chatcmpl-1","object":"chat.completion","created":1700000000,"model":"gpt-4o","choices":[{"index":0,"message":{"role":"assistant","content":"hello"},"finish_reason":null}],"usage":null}"#
    );
}

#[test]
fn streaming_reply_has_event_stream_headers() {
    let (mut lp, _) = RetryLoop::new(chat_request(), true, 1, "m".to_string());
    step(&mut lp, Event::TokenGranted("a@x.com".to_string()));
    let st = step(&mut lp, Event::StreamReady);
    let h = headers(&st.action);
    assert_eq!(h[0], ("X-Mapped-Model".to_string(), "m".to_string()));
    assert_eq!(header(&h, "Content-Type"), Some("text/event-stream"));
    assert_eq!(header(&h, "Cache-Control"), Some("no-cache"));
    assert_eq!(header(&h, "Connection"), Some("keep-alive"));
    assert_eq!(header(&h, "X-Accel-Buffering"), Some("no"));
}

#[test]
fn rate_limit_with_retry_after_rotates_and_waits() {
    let (mut lp, _) = RetryLoop::new(chat_request(), false, 3, "m".to_string());
    step(&mut lp, Event::TokenGranted("a@x.com".to_string()));
    let st = step(&mut lp, failed(429, Some("1"), "quota"));
    let mark = st.mark_rate_limited.as_ref().unwrap();
    assert_eq!(mark.email, "a@x.com");
    assert_eq!(mark.status, 429);
    assert_eq!(mark.retry_after.as_deref(), Some("1"));
    assert_eq!(mark.error_text, "quota");
    assert!(is_acquire(&st.action, true, 1000));
    let st = step(&mut lp, Event::TokenGranted("b@x.com".to_string()));
    assert!(is_call(&st.action));
    let st = step(&mut lp, Event::StreamReady);
    assert_eq!(header(&headers(&st.action), "X-Account-Email"), Some("b@x.com"));
    assert_eq!(lp.upstream_calls, 2);
}

#[test]
fn signature_failure_retries_on_same_account() {
    let (mut lp, _) = RetryLoop::new(chat_request(), false, 3, "m".to_string());
    step(&mut lp, Event::TokenGranted("a@x.com".to_string()));
    let st = step(&mut lp, failed(400, None, "{\"error\":\"Invalid `signature`\"}"));
    assert!(st.mark_rate_limited.is_none());
    assert!(is_call(&st.action));
    assert_eq!(lp.email.as_deref(), Some("a@x.com"));
    let text = lp.request.to_json_string();
    assert!(text.contains("hi\\n\\n[System Recovery] Your previous output contained an invalid signature."));
    let st = step(&mut lp, Event::StreamReady);
    assert_eq!(header(&headers(&st.action), "X-Account-Email"), Some("a@x.com"));
}

#[test]
fn empty_pool_token_failure_gives_503() {
    let (mut lp, _) = RetryLoop::new(chat_request(), false, 0, "m".to_string());
    assert_eq!(lp.max_attempts, 2);
    let st = step(&mut lp, Event::TokenFailed("no accounts".to_string()));
    assert_eq!(status(&st.action), 503);
    assert_eq!(body_text(&st.action), "Token error: no accounts");
    assert_eq!(headers(&st.action), vec![("X-Mapped-Model".to_string(), "m".to_string())]);
    assert_eq!(lp.upstream_calls, 0);
}

#[test]
fn heartbeats_then_timeout_signal_retry_and_rotation() {
    assert!(matches!(peek_step(&StreamEvent::Chunk(b": ping\n\n".to_vec())), PeekStep::Skip));
    assert!(matches!(peek_step(&StreamEvent::Chunk(b"  data: : keepalive".to_vec())), PeekStep::Skip));
    assert!(matches!(peek_step(&StreamEvent::Chunk(Vec::new())), PeekStep::Skip));
    let timeout = peek_step(&StreamEvent::TimedOut);
    let f = match timeout {
        PeekStep::Retry(f) => f,
        _ => panic!("expected a retry"),
    };
    assert_eq!(failure_message(&f), "Timeout waiting for first data");
    let (mut lp, _) = RetryLoop::new(chat_request(), true, 3, "m".to_string());
    step(&mut lp, Event::TokenGranted("a@x.com".to_string()));
    let st = step(&mut lp, Event::PeekFailed(f));
    assert!(is_acquire(&st.action, true, 0));
    assert!(st.mark_rate_limited.is_none());
}

#[test]
fn peek_decisions() {
    assert!(matches!(peek_step(&StreamEvent::Chunk(b"data: {\"error\":\"x\"}".to_vec())), PeekStep::Retry(PeekFailure::ErrorEvent)));
    assert!(matches!(peek_step(&StreamEvent::Chunk(b"data: {\"x\":1}".to_vec())), PeekStep::Deliver));
    assert!(matches!(peek_step(&StreamEvent::Ended), PeekStep::Retry(PeekFailure::EmptyStream)));
    assert!(matches!(peek_step(&StreamEvent::Failed("reset".to_string())), PeekStep::Retry(PeekFailure::Transport(_))));
    assert!(is_heartbeat(b"\r\n:comment"));
    assert!(!is_heartbeat(b"data: {}"));
    assert!(is_error_event(b"{\"error\":1}"));
    assert!(!is_error_event(b"error"));
    assert_eq!(failure_message(&PeekFailure::Transport("reset".to_string())), "Stream error during peek: reset");
}

#[test]
fn splice_keeps_stream_without_duplicates() {
    let chunks = vec![b"data: a\n\n".to_vec(), b"data: b\n\n".to_vec()];
    let out = peek_and_splice(&chunks).ok().unwrap();
    assert_eq!(out, chunks);
    let with_beats = vec![b":hb".to_vec(), Vec::new(), b"data: a".to_vec(), b"data: b".to_vec()];
    let out = peek_and_splice(&with_beats).ok().unwrap();
    assert_eq!(out, vec![b"data: a".to_vec(), b"data: b".to_vec()]);
    assert!(matches!(peek_and_splice(&vec![b":hb".to_vec()]), Err(PeekFailure::EmptyStream)));
}

#[test]
fn rate_limited_statuses_are_marked_once_and_others_not() {
    for st in [429u16, 500, 503, 529] {
        let (mut lp, _) = RetryLoop::new(chat_request(), false, 3, "m".to_string());
        step(&mut lp, Event::TokenGranted("a@x.com".to_string()));
        let out = step(&mut lp, failed(st, None, "busy"));
        assert_eq!(out.mark_rate_limited.unwrap().email, "a@x.com");
        assert!(is_acquire(&out.action, true, 500));
    }
    let (mut lp, _) = RetryLoop::new(chat_request(), false, 3, "m".to_string());
    step(&mut lp, Event::TokenGranted("a@x.com".to_string()));
    let out = step(&mut lp, failed(401, None, "auth"));
    assert!(out.mark_rate_limited.is_none());
    assert!(is_acquire(&out.action, true, 200));
}

#[test]
fn non_retryable_status_is_returned_verbatim() {
    let (mut lp, _) = RetryLoop::new(chat_request(), false, 3, "m".to_string());
    step(&mut lp, Event::TokenGranted("a@x.com".to_string()));
    let st = step(&mut lp, failed(404, None, "model not found"));
    assert!(st.mark_rate_limited.is_none());
    assert_eq!(status(&st.action), 404);
    assert_eq!(body_text(&st.action), "model not found");
    let h = headers(&st.action);
    assert_eq!(header(&h, "X-Mapped-Model"), Some("m"));
    assert_eq!(header(&h, "X-Account-Email"), Some("a@x.com"));
}

#[test]
fn exhausted_attempts_give_429_with_last_error() {
    let (mut lp, _) = RetryLoop::new(chat_request(), false, 1, "m".to_string());
    step(&mut lp, Event::TokenGranted("a@x.com".to_string()));
    let st = step(&mut lp, Event::NetworkFailed("connection reset".to_string()));
    assert!(is_acquire(&st.action, true, 0));
    step(&mut lp, Event::TokenGranted("b@x.com".to_string()));
    let st = step(&mut lp, failed(503, None, "overloaded"));
    assert_eq!(status(&st.action), 429);
    assert_eq!(body_text(&st.action), "All accounts exhausted. Last error: HTTP 503: overloaded");
    assert_eq!(header(&headers(&st.action), "X-Account-Email"), Some("b@x.com"));
    assert_eq!(lp.upstream_calls, 2);
    assert!(!lp.is_expected(&Event::StreamReady));
}

#[test]
fn collector_keeps_choices_finish_and_usage() {
    let c1 = obj(vec![(
        "choices",
        JsonValue::Array(vec![
            obj(vec![("index", JsonValue::Number("0".to_string())), ("delta", obj(vec![("content", s("a"))]))]),
            obj(vec![("index", JsonValue::Number("1".to_string())), ("delta", obj(vec![("content", s("x"))]))]),
        ]),
    )]);
    let c2 = obj(vec![
        (
            "choices",
            JsonValue::Array(vec![obj(vec![
                ("index", JsonValue::Number("0".to_string())),
                ("delta", obj(vec![("content", s("b"))])),
                ("finish_reason", s("stop")),
            ])]),
        ),
        ("usage", obj(vec![("total_tokens", JsonValue::Number("5".to_string()))])),
    ]);
    let out = collect_stream(&vec![c1, c2]);
    assert_eq!(
        out.to_json_string(),
        r#"{"id":null,"object":"chat.completion","created":null,"model":null,"choices":[{"index":0,"message":{"role":"assistant","content":"ab"},"finish_reason":"stop"},{"index":1,"message":{"role":"assistant","content":"x"},"finish_reason":null}],"usage":{"total_tokens":5}}"#
    );
    let legacy = to_legacy_completion(&out);
    assert_eq!(
        legacy.to_json_string(),
        r#"{"id":null,"object":"text_completion","created":null,"model":null,"choices":[{"text":"ab","index":0,"logprobs":null,"finish_reason":"stop"},{"text":"x","index":1,"logprobs":null,"finish_reason":null}],"usage":{"total_tokens":5}}"#
    );
}

#[test]
fn sse_payloads_are_framed_by_line() {
    let out = sse_payloads(b"data: {\"a\":1}\r\n\ndata:{\"b\":2}\n: ping\ndata: [DONE]\n\n");
    assert_eq!(out, vec![b"{\"a\":1}".to_vec(), b"{\"b\":2}".to_vec()]);
    assert!(sse_payloads(b"").is_empty());
}

#[test]
fn start_request_routes_and_normalizes() {
    let user = vec![("gpt-4o".to_string(), "gemini-3-pro".to_string())];
    let body = obj(vec![("model", s("gpt-4o")), ("stream", JsonValue::Bool(true)), ("prompt", s("p"))]);
    let (lp, a) = start_request(&body, 0, &user, &vec![]).ok().unwrap();
    assert_eq!(lp.mapped_model, "gemini-3-pro");
    assert!(lp.client_wants_stream);
    assert_eq!(lp.max_attempts, 2);
    assert!(is_acquire(&a, false, 0));
    assert!(lp.request.to_json_string().contains(r#""messages":[{"role":"user","content":"p"}]"#));
    assert!(start_request(&s("x"), 1, &user, &vec![]).is_err());
}
