//! The order in which the proxy handles one request, as a state machine.
//!
//! Each step takes what the last piece of outside work found (an event) and
//! says what to do next (an action), until the request is answered. The
//! checks come in a fixed order: bot detection, validation, the paths the
//! proxy answers itself, static files, routing, authentication, the cache,
//! the circuit breaker and the rate limiter; only a request that passes all
//! of them is forwarded to its target.
use vstd::prelude::*;
use vstd::string::*;
use crate::error::ProxyError;
use crate::proxy::{PathKind, path_kind_of, classify_path};

verus! {

/// Where the handling of a request stands.
#[derive(Debug, Clone, Copy, PartialEq, Eq, Structural)]
pub enum PipelineState {
    /// Nothing done yet.
    Start,
    /// Waiting to learn whether the request comes from a bot.
    CheckingBot,
    /// Waiting for the request's validation.
    Validating,
    /// Waiting to learn whether a static file serves the path.
    CheckingStaticFile,
    /// Waiting for the target that serves the path.
    FindingTarget,
    /// Waiting for the authentication check; `caches` tells whether the
    /// target caches its responses.
    Authenticating { caches: bool },
    /// Waiting for the cache lookup.
    LookingUpCache,
    /// Waiting for the circuit breaker; `stale` tells whether a cached
    /// response may let the target answer "not modified".
    AskingBreaker { caches: bool, stale: bool },
    /// Waiting for the rate limiter.
    AskingLimiter { caches: bool, stale: bool },
    /// Waiting for the target's answer, after the retries.
    Forwarding { caches: bool },
    /// Waiting for the cached response that a "not modified" answer refers to.
    ServingNotModified,
    /// The request is answered.
    Done,
}

/// What a cache lookup found.
#[derive(Debug, Clone, Copy, PartialEq, Eq, Structural)]
pub enum CacheFinding {
    /// A live response that answers the request.
    Hit,
    /// A live response whose validators may serve a conditional request.
    Stale,
    /// Nothing.
    Miss,
}

/// What the last piece of outside work found.
#[derive(Debug)]
pub enum PipelineEvent {
    /// The request arrived.
    Begin,
    /// Whether the bot detector refuses the request.
    BotChecked { is_bot: bool },
    /// The validation's result, and the request's path.
    Validated { result: Result<(), String>, path: String },
    /// Whether a static file serves the path.
    StaticFileChecked { exists: bool },
    /// Whether a target serves the path, and whether that target caches.
    TargetFound { found: bool, caches: bool },
    /// The authentication's result.
    Authenticated(Result<(), String>),
    /// What the cache holds for the request.
    CacheLookedUp(CacheFinding),
    /// Whether the circuit breaker lets the request through.
    BreakerAnswered { allowed: bool },
    /// Whether the rate limiter lets the request through.
    LimiterAnswered { allowed: bool },
    /// The status of the target's answer that the retries handed on, or the
    /// error they gave up with.
    Forwarded(Result<u16, ProxyError>),
    /// Whether the cache holds the response that a "not modified" answer
    /// refers to.
    NotModifiedLookedUp { found: bool },
}

/// Why a request is refused.
#[derive(Debug, Clone)]
pub enum Refusal {
    /// The bot detector refused it.
    Bot,
    /// It failed validation, with this message.
    Invalid(String),
    /// No target serves its path.
    NoTarget,
    /// It failed authentication, with this message.
    Unauthorized(String),
    /// The target's circuit breaker is open.
    BreakerOpen,
    /// The target's rate limit is used up.
    RateLimited,
    /// Forwarding it failed with this error.
    Failed(ProxyError),
    /// An event came that the current step does not wait for.
    OutOfOrder,
}

/// How a request is answered.
#[derive(Debug, Clone)]
pub enum Reply {
    /// "OK", for `/health`.
    Health,
    /// The gathered metrics, for `/metrics`.
    Metrics,
    /// The static file that serves the path.
    StaticFile,
    /// The cached response.
    Cached,
    /// The target's answer, stored in the cache first when `store` holds.
    Upstream { store: bool },
    /// An error.
    Refused(Refusal),
}

/// The next piece of work.
#[derive(Debug, Clone)]
pub enum PipelineAction {
    CheckBot,
    Validate,
    CheckStaticFile,
    FindTarget,
    Authenticate,
    LookUpCache,
    AskBreaker,
    AskLimiter,
    /// Forward the request through the retries; when `conditional` holds, with
    /// the validators of the cached response.
    Forward { conditional: bool },
    /// Look up the cached response that a "not modified" answer refers to.
    LookUpNotModified,
    /// Answer the request.
    Respond(Reply),
}

/// The step for an event that the current state does not wait for.
pub open spec fn out_of_order() -> (PipelineState, PipelineAction) {
    (PipelineState::Done, PipelineAction::Respond(Reply::Refused(Refusal::OutOfOrder)))
}

/// The next state and action after `event` in `state`.
pub open spec fn pipeline_step(state: PipelineState, event: PipelineEvent) -> (PipelineState, PipelineAction) {
    match (state, event) {
        (PipelineState::Start, PipelineEvent::Begin) => (PipelineState::CheckingBot, PipelineAction::CheckBot),
        (PipelineState::CheckingBot, PipelineEvent::BotChecked { is_bot }) => if is_bot {
            (PipelineState::Done, PipelineAction::Respond(Reply::Refused(Refusal::Bot)))
        } else {
            (PipelineState::Validating, PipelineAction::Validate)
        },
        (PipelineState::Validating, PipelineEvent::Validated { result, path }) => match result {
            Err(m) => (PipelineState::Done, PipelineAction::Respond(Reply::Refused(Refusal::Invalid(m)))),
            Ok(_) => match path_kind_of(path@) {
                PathKind::Health => (PipelineState::Done, PipelineAction::Respond(Reply::Health)),
                PathKind::Metrics => (PipelineState::Done, PipelineAction::Respond(Reply::Metrics)),
                PathKind::Proxied => (PipelineState::CheckingStaticFile, PipelineAction::CheckStaticFile),
            },
        },
        (PipelineState::CheckingStaticFile, PipelineEvent::StaticFileChecked { exists }) => if exists {
            (PipelineState::Done, PipelineAction::Respond(Reply::StaticFile))
        } else {
            (PipelineState::FindingTarget, PipelineAction::FindTarget)
        },
        (PipelineState::FindingTarget, PipelineEvent::TargetFound { found, caches }) => if found {
            (PipelineState::Authenticating { caches }, PipelineAction::Authenticate)
        } else {
            (PipelineState::Done, PipelineAction::Respond(Reply::Refused(Refusal::NoTarget)))
        },
        (PipelineState::Authenticating { caches }, PipelineEvent::Authenticated(result)) => match result {
            Err(m) => (PipelineState::Done, PipelineAction::Respond(Reply::Refused(Refusal::Unauthorized(m)))),
            Ok(_) => if caches {
                (PipelineState::LookingUpCache, PipelineAction::LookUpCache)
            } else {
                (PipelineState::AskingBreaker { caches: false, stale: false }, PipelineAction::AskBreaker)
            },
        },
        (PipelineState::LookingUpCache, PipelineEvent::CacheLookedUp(finding)) => match finding {
            CacheFinding::Hit => (PipelineState::Done, PipelineAction::Respond(Reply::Cached)),
            CacheFinding::Stale => (PipelineState::AskingBreaker { caches: true, stale: true }, PipelineAction::AskBreaker),
            CacheFinding::Miss => (PipelineState::AskingBreaker { caches: true, stale: false }, PipelineAction::AskBreaker),
        },
        (PipelineState::AskingBreaker { caches, stale }, PipelineEvent::BreakerAnswered { allowed }) => if allowed {
            (PipelineState::AskingLimiter { caches, stale }, PipelineAction::AskLimiter)
        } else {
            (PipelineState::Done, PipelineAction::Respond(Reply::Refused(Refusal::BreakerOpen)))
        },
        (PipelineState::AskingLimiter { caches, stale }, PipelineEvent::LimiterAnswered { allowed }) => if allowed {
            (PipelineState::Forwarding { caches }, PipelineAction::Forward { conditional: stale })
        } else {
            (PipelineState::Done, PipelineAction::Respond(Reply::Refused(Refusal::RateLimited)))
        },
        (PipelineState::Forwarding { caches }, PipelineEvent::Forwarded(result)) => match result {
            Err(e) => (PipelineState::Done, PipelineAction::Respond(Reply::Refused(Refusal::Failed(e)))),
            Ok(status) => if status == 304 && caches {
                (PipelineState::ServingNotModified, PipelineAction::LookUpNotModified)
            } else {
                (PipelineState::Done, PipelineAction::Respond(Reply::Upstream { store: caches && status != 304 }))
            },
        },
        (PipelineState::ServingNotModified, PipelineEvent::NotModifiedLookedUp { found }) => if found {
            (PipelineState::Done, PipelineAction::Respond(Reply::Cached))
        } else {
            (PipelineState::Done, PipelineAction::Respond(Reply::Upstream { store: false }))
        },
        _ => out_of_order(),
    }
}

fn refused(r: Refusal) -> (p: (PipelineState, PipelineAction))
    ensures
        p == (PipelineState::Done, PipelineAction::Respond(Reply::Refused(r))),
{
    (PipelineState::Done, PipelineAction::Respond(Reply::Refused(r)))
}

fn answered(r: Reply) -> (p: (PipelineState, PipelineAction))
    ensures
        p == (PipelineState::Done, PipelineAction::Respond(r)),
{
    (PipelineState::Done, PipelineAction::Respond(r))
}

/// The next state and action after `event` in `state`.
pub fn request_step(state: &PipelineState, event: PipelineEvent) -> (r: (PipelineState, PipelineAction))
    ensures
        r == pipeline_step(*state, event),
{
    match (*state, event) {
        (PipelineState::Start, PipelineEvent::Begin) => (PipelineState::CheckingBot, PipelineAction::CheckBot),
        (PipelineState::CheckingBot, PipelineEvent::BotChecked { is_bot }) => if is_bot {
            refused(Refusal::Bot)
        } else {
            (PipelineState::Validating, PipelineAction::Validate)
        },
        (PipelineState::Validating, PipelineEvent::Validated { result, path }) => match result {
            Err(m) => refused(Refusal::Invalid(m)),
            Ok(_) => match classify_path(path.as_str()) {
                PathKind::Health => answered(Reply::Health),
                PathKind::Metrics => answered(Reply::Metrics),
                PathKind::Proxied => (PipelineState::CheckingStaticFile, PipelineAction::CheckStaticFile),
            },
        },
        (PipelineState::CheckingStaticFile, PipelineEvent::StaticFileChecked { exists }) => if exists {
            answered(Reply::StaticFile)
        } else {
            (PipelineState::FindingTarget, PipelineAction::FindTarget)
        },
        (PipelineState::FindingTarget, PipelineEvent::TargetFound { found, caches }) => if found {
            (PipelineState::Authenticating { caches }, PipelineAction::Authenticate)
        } else {
            refused(Refusal::NoTarget)
        },
        (PipelineState::Authenticating { caches }, PipelineEvent::Authenticated(result)) => match result {
            Err(m) => refused(Refusal::Unauthorized(m)),
            Ok(_) => if caches {
                (PipelineState::LookingUpCache, PipelineAction::LookUpCache)
            } else {
                (PipelineState::AskingBreaker { caches: false, stale: false }, PipelineAction::AskBreaker)
            },
        },
        (PipelineState::LookingUpCache, PipelineEvent::CacheLookedUp(finding)) => match finding {
            CacheFinding::Hit => answered(Reply::Cached),
            CacheFinding::Stale => (PipelineState::AskingBreaker { caches: true, stale: true }, PipelineAction::AskBreaker),
            CacheFinding::Miss => (PipelineState::AskingBreaker { caches: true, stale: false }, PipelineAction::AskBreaker),
        },
        (PipelineState::AskingBreaker { caches, stale }, PipelineEvent::BreakerAnswered { allowed }) => if allowed {
            (PipelineState::AskingLimiter { caches, stale }, PipelineAction::AskLimiter)
        } else {
            refused(Refusal::BreakerOpen)
        },
        (PipelineState::AskingLimiter { caches, stale }, PipelineEvent::LimiterAnswered { allowed }) => if allowed {
            (PipelineState::Forwarding { caches }, PipelineAction::Forward { conditional: stale })
        } else {
            refused(Refusal::RateLimited)
        },
        (PipelineState::Forwarding { caches }, PipelineEvent::Forwarded(result)) => match result {
            Err(e) => refused(Refusal::Failed(e)),
            Ok(status) => if status == 304 && caches {
                (PipelineState::ServingNotModified, PipelineAction::LookUpNotModified)
            } else {
                answered(Reply::Upstream { store: caches && status != 304 })
            },
        },
        (PipelineState::ServingNotModified, PipelineEvent::NotModifiedLookedUp { found }) => if found {
            answered(Reply::Cached)
        } else {
            answered(Reply::Upstream { store: false })
        },
        _ => refused(Refusal::OutOfOrder),
    }
}

/// The state after handling `events` in order, from the start.
pub open spec fn run_state(events: Seq<PipelineEvent>) -> PipelineState
    decreases events.len(),
{
    if events.len() == 0 {
        PipelineState::Start
    } else {
        pipeline_step(run_state(events.drop_last()), events.last()).0
    }
}

/// Whether `e` is the event that lets a request pass the check at position
/// `i` of the fixed order: arrival, bot detection, validation (of a path the
/// proxy does not answer itself), static files, routing, authentication.
pub open spec fn passes_check(i: int, e: PipelineEvent) -> bool {
    match e {
        PipelineEvent::Begin => i == 0,
        PipelineEvent::BotChecked { is_bot } => i == 1 && !is_bot,
        PipelineEvent::Validated { result, path } => i == 2 && result is Ok && path_kind_of(path@)
            == PathKind::Proxied,
        PipelineEvent::StaticFileChecked { exists } => i == 3 && !exists,
        PipelineEvent::TargetFound { found, .. } => i == 4 && found,
        PipelineEvent::Authenticated(result) => i == 5 && result is Ok,
        _ => false,
    }
}

/// Whether the first `n` events pass the first `n` checks.
pub open spec fn passed_checks(events: Seq<PipelineEvent>, n: int) -> bool {
    n <= events.len() && forall|i: int| 0 <= i < n ==> passes_check(i, #[trigger] events[i])
}

/// Whether the target found for the request caches its responses.
pub open spec fn target_caches(events: Seq<PipelineEvent>) -> bool {
    events[4] matches PipelineEvent::TargetFound { caches, .. } && caches
}

/// Whether the event at `i` is a cache lookup that found no answer.
pub open spec fn cache_missed(events: Seq<PipelineEvent>, i: int) -> bool {
    events[i] matches PipelineEvent::CacheLookedUp(f) && f != CacheFinding::Hit
}

/// Whether the event at `i` is a breaker's or a limiter's consent.
pub open spec fn breaker_allowed(events: Seq<PipelineEvent>, i: int) -> bool {
    events[i] matches PipelineEvent::BreakerAnswered { allowed } && allowed
}

pub open spec fn limiter_allowed(events: Seq<PipelineEvent>, i: int) -> bool {
    events[i] matches PipelineEvent::LimiterAnswered { allowed } && allowed
}

/// What the events that lead to each state were.
proof fn lemma_history(events: Seq<PipelineEvent>)
    ensures
        match run_state(events) {
            PipelineState::Start => events.len() == 0,
            PipelineState::CheckingBot => events.len() == 1 && passed_checks(events, 1),
            PipelineState::Validating => events.len() == 2 && passed_checks(events, 2),
            PipelineState::CheckingStaticFile => events.len() == 3 && passed_checks(events, 3),
            PipelineState::FindingTarget => events.len() == 4 && passed_checks(events, 4),
            PipelineState::Authenticating { caches } => events.len() == 5 && passed_checks(events, 5)
                && target_caches(events) == caches,
            PipelineState::LookingUpCache => events.len() == 6 && passed_checks(events, 6)
                && target_caches(events),
            PipelineState::AskingBreaker { caches, stale } => passed_checks(events, 6)
                && target_caches(events) == caches && (if caches {
                events.len() == 7 && cache_missed(events, 6)
            } else {
                events.len() == 6
            }),
            PipelineState::AskingLimiter { caches, stale } => passed_checks(events, 6)
                && target_caches(events) == caches && (if caches {
                events.len() == 8 && cache_missed(events, 6) && breaker_allowed(events, 7)
            } else {
                events.len() == 7 && breaker_allowed(events, 6)
            }),
            PipelineState::Forwarding { caches } => passed_checks(events, 6) && target_caches(events)
                == caches && (if caches {
                events.len() == 9 && cache_missed(events, 6) && breaker_allowed(events, 7)
                    && limiter_allowed(events, 8)
            } else {
                events.len() == 8 && breaker_allowed(events, 6) && limiter_allowed(events, 7)
            }),
            _ => true,
        },
    decreases events.len(),
{
    if events.len() > 0 {
        let before = events.drop_last();
        lemma_history(before);
        assert forall|i: int| 0 <= i < before.len() implies events[i] == before[i] by {}
        assert(events[events.len() - 1] == events.last());
    }
}

/// A request is forwarded to its target only after it has passed every check
/// in order: it is no bot, it is valid and its path is neither one the proxy
/// answers itself nor a static file, a target serves it, it is
/// authenticated, the cache (when the target caches) holds no answer for it,
/// and the circuit breaker and then the rate limiter let it through.
pub proof fn law_forwarded_only_after_every_check(events: Seq<PipelineEvent>)
    requires
        events.len() > 0,
        pipeline_step(run_state(events.drop_last()), events.last()).1 is Forward,
    ensures
        passed_checks(events, 6),
        target_caches(events) ==> events.len() == 9 && cache_missed(events, 6) && breaker_allowed(
            events,
            7,
        ) && limiter_allowed(events, 8),
        !target_caches(events) ==> events.len() == 8 && breaker_allowed(events, 6)
            && limiter_allowed(events, 7),
{
    lemma_history(events);
}

/// Each check that fails ends the request with its own answer: a bot is
/// refused, an invalid request is a bad request with the validation's
/// message, a path without a target is not found, failed authentication is
/// unauthorized with its message, an open breaker and a used-up limit refuse,
/// and a failed forwarding answers with its error. A static file, a cache
/// hit, `/health` and `/metrics` are answered without forwarding.
pub proof fn law_checks_answers(p: String, m: String, e: ProxyError, caches: bool, stale: bool)
    ensures
        pipeline_step(PipelineState::CheckingBot, PipelineEvent::BotChecked { is_bot: true }) == (
        PipelineState::Done,
        PipelineAction::Respond(Reply::Refused(Refusal::Bot)),
        ),
        pipeline_step(PipelineState::Validating, PipelineEvent::Validated { result: Err(m), path: p }) == (
        PipelineState::Done,
        PipelineAction::Respond(Reply::Refused(Refusal::Invalid(m))),
        ),
        p@ == "/health"@ ==> pipeline_step(
            PipelineState::Validating,
            PipelineEvent::Validated { result: Ok(()), path: p },
        ) == (PipelineState::Done, PipelineAction::Respond(Reply::Health)),
        p@ == "/metrics"@ ==> pipeline_step(
            PipelineState::Validating,
            PipelineEvent::Validated { result: Ok(()), path: p },
        ) == (PipelineState::Done, PipelineAction::Respond(Reply::Metrics)),
        pipeline_step(PipelineState::CheckingStaticFile, PipelineEvent::StaticFileChecked { exists: true }) == (
        PipelineState::Done,
        PipelineAction::Respond(Reply::StaticFile),
        ),
        pipeline_step(PipelineState::FindingTarget, PipelineEvent::TargetFound { found: false, caches }) == (
        PipelineState::Done,
        PipelineAction::Respond(Reply::Refused(Refusal::NoTarget)),
        ),
        pipeline_step(PipelineState::Authenticating { caches }, PipelineEvent::Authenticated(Err(m))) == (
        PipelineState::Done,
        PipelineAction::Respond(Reply::Refused(Refusal::Unauthorized(m))),
        ),
        pipeline_step(PipelineState::LookingUpCache, PipelineEvent::CacheLookedUp(CacheFinding::Hit)) == (
        PipelineState::Done,
        PipelineAction::Respond(Reply::Cached),
        ),
        pipeline_step(
            PipelineState::AskingBreaker { caches, stale },
            PipelineEvent::BreakerAnswered { allowed: false },
        ) == (PipelineState::Done, PipelineAction::Respond(Reply::Refused(Refusal::BreakerOpen))),
        pipeline_step(
            PipelineState::AskingLimiter { caches, stale },
            PipelineEvent::LimiterAnswered { allowed: false },
        ) == (PipelineState::Done, PipelineAction::Respond(Reply::Refused(Refusal::RateLimited))),
        pipeline_step(
            PipelineState::AskingLimiter { caches, stale },
            PipelineEvent::LimiterAnswered { allowed: true },
        ) == (PipelineState::Forwarding { caches }, PipelineAction::Forward { conditional: stale }),
        pipeline_step(PipelineState::Forwarding { caches }, PipelineEvent::Forwarded(Err(e))) == (
        PipelineState::Done,
        PipelineAction::Respond(Reply::Refused(Refusal::Failed(e))),
        ),
{
    reveal_strlit("/health");
    reveal_strlit("/metrics");
    assert("/metrics"@ != "/health"@) by {
        assert("/metrics"@.len() != "/health"@.len());
    }
}

/// A target's answer is handed on, and stored first exactly when the target
/// caches and the answer is not "not modified"; a "not modified" answer to a
/// caching target is served from the cache when the cache still holds the
/// response, and handed on as it is otherwise.
pub proof fn law_answers_of_the_target(caches: bool, status: u16, found: bool)
    ensures
        status != 304 ==> pipeline_step(PipelineState::Forwarding { caches }, PipelineEvent::Forwarded(Ok(status)))
            == (PipelineState::Done, PipelineAction::Respond(Reply::Upstream { store: caches })),
        pipeline_step(PipelineState::Forwarding { caches: false }, PipelineEvent::Forwarded(Ok(304))) == (
        PipelineState::Done,
        PipelineAction::Respond(Reply::Upstream { store: false }),
        ),
        pipeline_step(PipelineState::Forwarding { caches: true }, PipelineEvent::Forwarded(Ok(304))) == (
        PipelineState::ServingNotModified,
        PipelineAction::LookUpNotModified,
        ),
        pipeline_step(PipelineState::ServingNotModified, PipelineEvent::NotModifiedLookedUp { found: true }) == (
        PipelineState::Done,
        PipelineAction::Respond(Reply::Cached),
        ),
        pipeline_step(PipelineState::ServingNotModified, PipelineEvent::NotModifiedLookedUp { found: false }) == (
        PipelineState::Done,
        PipelineAction::Respond(Reply::Upstream { store: false }),
        ),
{
}

/// The errors of refused requests: 403 "Bot detected" for a bot, 400 with
/// the validation's message, 404 "No target found for the given path", 401
/// with the authentication's message, the open breaker's error, 429 "Rate
/// limit exceeded", and a failed forwarding's own error.
pub proof fn law_refusal_errors(m: String, f: ProxyError, e: ProxyError)
    ensures
        refusal_error_of(Refusal::Bot, e) ==> (e matches ProxyError::Forbidden(x) && x@ == "Bot detected"@),
        refusal_error_of(Refusal::Invalid(m), e) ==> e == ProxyError::BadRequest(m),
        refusal_error_of(Refusal::NoTarget, e) ==> (e matches ProxyError::NotFound(x) && x@
            == "No target found for the given path"@),
        refusal_error_of(Refusal::Unauthorized(m), e) ==> e == ProxyError::Unauthorized(m),
        refusal_error_of(Refusal::BreakerOpen, e) ==> e == ProxyError::CircuitBreakerOpen,
        refusal_error_of(Refusal::RateLimited, e) ==> (e matches ProxyError::TooManyRequests(x) && x@
            == "Rate limit exceeded"@),
        refusal_error_of(Refusal::Failed(f), e) ==> e == f,
{
}

/// The error that answers a refused request.
pub open spec fn refusal_error_of(r: Refusal, e: ProxyError) -> bool {
    match r {
        Refusal::Bot => e matches ProxyError::Forbidden(m) && m@ == "Bot detected"@,
        Refusal::Invalid(m) => e == ProxyError::BadRequest(m),
        Refusal::NoTarget => e matches ProxyError::NotFound(m) && m@ == "No target found for the given path"@,
        Refusal::Unauthorized(m) => e == ProxyError::Unauthorized(m),
        Refusal::BreakerOpen => e == ProxyError::CircuitBreakerOpen,
        Refusal::RateLimited => e matches ProxyError::TooManyRequests(m) && m@ == "Rate limit exceeded"@,
        Refusal::Failed(f) => e == f,
        Refusal::OutOfOrder => e matches ProxyError::InternalServerError(m) && m@
            == "Request handled out of order"@,
    }
}

impl Refusal {
    /// The error that answers a refused request.
    pub fn into_error(self) -> (e: ProxyError)
        ensures
            refusal_error_of(self, e),
    {
        match self {
            Refusal::Bot => ProxyError::Forbidden("Bot detected".to_owned()),
            Refusal::Invalid(m) => ProxyError::BadRequest(m),
            Refusal::NoTarget => ProxyError::NotFound("No target found for the given path".to_owned()),
            Refusal::Unauthorized(m) => ProxyError::Unauthorized(m),
            Refusal::BreakerOpen => ProxyError::CircuitBreakerOpen,
            Refusal::RateLimited => ProxyError::TooManyRequests("Rate limit exceeded".to_owned()),
            Refusal::Failed(f) => f,
            Refusal::OutOfOrder => ProxyError::InternalServerError("Request handled out of order".to_owned()),
        }
    }
}

} // verus!
