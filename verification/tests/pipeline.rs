use road7::error::ProxyError;
use road7::pipeline::{request_step, CacheFinding, PipelineAction, PipelineEvent, PipelineState, Refusal, Reply};

fn run(events: Vec<PipelineEvent>) -> (PipelineState, PipelineAction) {
    let mut state = PipelineState::Start;
    let mut last = None;
    for e in events {
        let (next, action) = request_step(&state, e);
        state = next;
        last = Some(action);
    }
    (state, last.unwrap())
}

fn checks_passed(caches: bool) -> Vec<PipelineEvent> {
    vec![
        PipelineEvent::Begin,
        PipelineEvent::BotChecked { is_bot: false },
        PipelineEvent::Validated { result: Ok(()), path: "/api".to_string() },
        PipelineEvent::StaticFileChecked { exists: false },
        PipelineEvent::TargetFound { found: true, caches },
        PipelineEvent::Authenticated(Ok(())),
    ]
}

fn refusal_message(action: PipelineAction) -> String {
    match action {
        PipelineAction::Respond(Reply::Refused(r)) => r.into_error().message(),
        other => panic!("not a refusal: {:?}", other),
    }
}

#[test]
fn checks_come_in_order_and_forward_last() {
    let mut events = checks_passed(false);
    events.push(PipelineEvent::BreakerAnswered { allowed: true });
    events.push(PipelineEvent::LimiterAnswered { allowed: true });
    let (state, action) = run(events);
    assert_eq!(state, PipelineState::Forwarding { caches: false });
    assert!(matches!(action, PipelineAction::Forward { conditional: false }));
}

#[test]
fn bot_is_forbidden() {
    let (state, action) = run(vec![PipelineEvent::Begin, PipelineEvent::BotChecked { is_bot: true }]);
    assert_eq!(state, PipelineState::Done);
    assert_eq!(refusal_message(action), "Forbidden: Bot detected");
}

#[test]
fn invalid_request_is_a_bad_request() {
    let (_, action) = run(vec![
        PipelineEvent::Begin,
        PipelineEvent::BotChecked { is_bot: false },
        PipelineEvent::Validated { result: Err("Invalid URI".to_string()), path: "/x".to_string() },
    ]);
    assert_eq!(refusal_message(action), "Bad Request: Invalid URI");
}

#[test]
fn health_and_metrics_are_answered_by_the_proxy() {
    let (_, action) = run(vec![
        PipelineEvent::Begin,
        PipelineEvent::BotChecked { is_bot: false },
        PipelineEvent::Validated { result: Ok(()), path: "/health".to_string() },
    ]);
    assert!(matches!(action, PipelineAction::Respond(Reply::Health)));
    let (_, action) = run(vec![
        PipelineEvent::Begin,
        PipelineEvent::BotChecked { is_bot: false },
        PipelineEvent::Validated { result: Ok(()), path: "/metrics".to_string() },
    ]);
    assert!(matches!(action, PipelineAction::Respond(Reply::Metrics)));
}

#[test]
fn static_file_is_served() {
    let mut events = checks_passed(false);
    events.truncate(3);
    events.push(PipelineEvent::StaticFileChecked { exists: true });
    let (_, action) = run(events);
    assert!(matches!(action, PipelineAction::Respond(Reply::StaticFile)));
}

#[test]
fn missing_target_is_not_found() {
    let mut events = checks_passed(false);
    events.truncate(4);
    events.push(PipelineEvent::TargetFound { found: false, caches: false });
    let (_, action) = run(events);
    assert_eq!(refusal_message(action), "Not Found: No target found for the given path");
}

#[test]
fn failed_authentication_is_unauthorized() {
    let mut events = checks_passed(false);
    events.truncate(5);
    events.push(PipelineEvent::Authenticated(Err("Invalid credentials".to_string())));
    let (_, action) = run(events);
    assert_eq!(refusal_message(action), "Unauthorized: Invalid credentials");
}

#[test]
fn cache_hit_is_served() {
    let mut events = checks_passed(true);
    events.push(PipelineEvent::CacheLookedUp(CacheFinding::Hit));
    let (state, action) = run(events);
    assert_eq!(state, PipelineState::Done);
    assert!(matches!(action, PipelineAction::Respond(Reply::Cached)));
}

#[test]
fn open_breaker_and_used_up_limit_refuse() {
    let mut events = checks_passed(false);
    events.push(PipelineEvent::BreakerAnswered { allowed: false });
    let (_, action) = run(events);
    assert_eq!(refusal_message(action), "Service Unavailable: Circuit Breaker is Open");

    let mut events = checks_passed(false);
    events.push(PipelineEvent::BreakerAnswered { allowed: true });
    events.push(PipelineEvent::LimiterAnswered { allowed: false });
    let (_, action) = run(events);
    match action {
        PipelineAction::Respond(Reply::Refused(r)) => {
            let e = r.into_error();
            assert_eq!(e.status_code(), 429);
            assert_eq!(e.into_response().body, "Rate limit exceeded");
        }
        other => panic!("not a refusal: {:?}", other),
    }
}

#[test]
fn not_modified_is_served_from_the_cache() {
    let mut events = checks_passed(true);
    events.push(PipelineEvent::CacheLookedUp(CacheFinding::Stale));
    events.push(PipelineEvent::BreakerAnswered { allowed: true });
    events.push(PipelineEvent::LimiterAnswered { allowed: true });
    let (state, action) = run(events);
    assert_eq!(state, PipelineState::Forwarding { caches: true });
    assert!(matches!(action, PipelineAction::Forward { conditional: true }));
    let (state, action) = request_step(&state, PipelineEvent::Forwarded(Ok(304)));
    assert_eq!(state, PipelineState::ServingNotModified);
    assert!(matches!(action, PipelineAction::LookUpNotModified));
    let (state, action) = request_step(&state, PipelineEvent::NotModifiedLookedUp { found: true });
    assert_eq!(state, PipelineState::Done);
    assert!(matches!(action, PipelineAction::Respond(Reply::Cached)));
}

#[test]
fn answers_of_caching_targets_are_stored() {
    let mut events = checks_passed(true);
    events.push(PipelineEvent::CacheLookedUp(CacheFinding::Miss));
    events.push(PipelineEvent::BreakerAnswered { allowed: true });
    events.push(PipelineEvent::LimiterAnswered { allowed: true });
    events.push(PipelineEvent::Forwarded(Ok(200)));
    let (_, action) = run(events);
    assert!(matches!(action, PipelineAction::Respond(Reply::Upstream { store: true })));

    let mut events = checks_passed(false);
    events.push(PipelineEvent::BreakerAnswered { allowed: true });
    events.push(PipelineEvent::LimiterAnswered { allowed: true });
    events.push(PipelineEvent::Forwarded(Ok(200)));
    let (_, action) = run(events);
    assert!(matches!(action, PipelineAction::Respond(Reply::Upstream { store: false })));
}

#[test]
fn failed_forwarding_answers_its_error() {
    let mut events = checks_passed(false);
    events.push(PipelineEvent::BreakerAnswered { allowed: true });
    events.push(PipelineEvent::LimiterAnswered { allowed: true });
    events.push(PipelineEvent::Forwarded(Err(ProxyError::Timeout)));
    let (_, action) = run(events);
    assert_eq!(refusal_message(action), "Gateway Timeout");
}

#[test]
fn an_event_out_of_order_ends_the_request() {
    let (state, action) = request_step(&PipelineState::Start, PipelineEvent::BotChecked { is_bot: false });
    assert_eq!(state, PipelineState::Done);
    assert!(matches!(action, PipelineAction::Respond(Reply::Refused(Refusal::OutOfOrder))));
}
