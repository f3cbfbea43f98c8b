//! What happens to one request: the rate limiter first, then the key check,
//! then the choice of a handler. A request that an earlier stage turns away
//! never reaches a later one. Only the first stage changes anything that
//! requests share.

use crate::auth::{passes, AuthConfig, Authorization};
use crate::identity::ClientIdentity;
use crate::limiter::{admission_for, history, logs_after, Admission, RateLimiter};
use crate::text::{after_prefix, parse_i64, same_text, signed_numeral};
use vstd::prelude::*;

verus! {

/// Status of a request turned away by the rate limiter.
pub const STATUS_TOO_MANY_REQUESTS: u16 = 429;

/// Status of a request turned away for its key.
pub const STATUS_UNAUTHORIZED: u16 = 401;

/// Status of a request that no handler serves.
pub const STATUS_NOT_FOUND: u16 = 404;

/// The header that carries a request's key.
pub const API_KEY_HEADER: &'static str = "x-api-key";

/// The body that answers a request turned away by the rate limiter.
pub const RATE_LIMITED_BODY: &'static str = "rate limit exceeded";

/// The body that answers a request turned away for its key. It does not
/// tell a missing key from a wrong one.
pub const UNAUTHORIZED_BODY: &'static str = "missing/invalid x-api-key";

/// The request methods that the route table tells apart.
#[derive(Clone, Copy, Debug, PartialEq, Eq, Structural)]
pub enum Method {
    Get,
    Post,
    Other,
}

/// What the pipeline reads of a request.
#[derive(Debug)]
pub struct Request {
    pub method: Method,
    pub path: String,
    /// The remote peer, where the transport knows it.
    pub peer: Option<ClientIdentity>,
    /// The value of the key header, where there is one that reads as text.
    pub api_key: Option<String>,
}

/// The handler that serves a request.
#[derive(Clone, Copy, Debug, PartialEq, Eq, Structural)]
pub enum Route {
    Health,
    Hello,
    Sum,
    User { id: i64 },
    Time,
    EchoText,
    EchoJson,
    Bytes,
    Slow,
    Flaky,
    Events,
    SecurePing,
    NotFound,
}

/// How a route answers.
#[derive(Clone, Copy, Debug, PartialEq, Eq, Structural)]
pub enum Answer {
    /// One complete body.
    Immediate,
    /// A body that the transport drains piece by piece.
    Streaming,
    /// No handler: the request is answered with `STATUS_NOT_FOUND`.
    Missing,
}

/// The number that ends a user path, if `path` is one: the user prefix,
/// then a signed numeral within `i64` and nothing else.
pub open spec fn user_id_of(path: Seq<char>) -> Option<i64> {
    if "/api/user/"@.is_prefix_of(path) {
        signed_numeral(path.skip("/api/user/"@.len() as int))
    } else {
        None
    }
}

/// The route table: method and path select a handler by exact match, but
/// for the user route, whose last segment is the user's number. Whatever
/// matches nothing is `NotFound`.
pub open spec fn route_of(method: Method, path: Seq<char>) -> Route {
    match method {
        Method::Get => {
            if path == "/healthz"@ {
                Route::Health
            } else if path == "/api/hello"@ {
                Route::Hello
            } else if path == "/api/add"@ {
                Route::Sum
            } else if path == "/api/time"@ {
                Route::Time
            } else if path == "/api/bytes"@ {
                Route::Bytes
            } else if path == "/api/slow"@ {
                Route::Slow
            } else if path == "/api/flaky"@ {
                Route::Flaky
            } else if path == "/api/sse"@ {
                Route::Events
            } else if path == "/api/secure/ping"@ {
                Route::SecurePing
            } else {
                match user_id_of(path) {
                    Some(id) => Route::User { id },
                    None => Route::NotFound,
                }
            }
        },
        Method::Post => {
            if path == "/api/echo"@ {
                Route::EchoText
            } else if path == "/api/json"@ {
                Route::EchoJson
            } else {
                Route::NotFound
            }
        },
        Method::Other => Route::NotFound,
    }
}

/// How `route` answers.
pub open spec fn answer_of(route: Route) -> Answer {
    match route {
        Route::NotFound => Answer::Missing,
        Route::Bytes => Answer::Streaming,
        Route::Events => Answer::Streaming,
        _ => Answer::Immediate,
    }
}

/// Reads the user's number off a user path.
pub fn user_id(path: &str) -> (id: Option<i64>)
    ensures
        id == user_id_of(path@),
{
    match after_prefix(path, "/api/user/") {
        Some(number) => parse_i64(number),
        None => None,
    }
}

/// Looks the request up in the route table.
pub fn route(method: Method, path: &str) -> (found: Route)
    ensures
        found == route_of(method, path@),
{
    match method {
        Method::Get => {
            if same_text(path, "/healthz") {
                Route::Health
            } else if same_text(path, "/api/hello") {
                Route::Hello
            } else if same_text(path, "/api/add") {
                Route::Sum
            } else if same_text(path, "/api/time") {
                Route::Time
            } else if same_text(path, "/api/bytes") {
                Route::Bytes
            } else if same_text(path, "/api/slow") {
                Route::Slow
            } else if same_text(path, "/api/flaky") {
                Route::Flaky
            } else if same_text(path, "/api/sse") {
                Route::Events
            } else if same_text(path, "/api/secure/ping") {
                Route::SecurePing
            } else {
                match user_id(path) {
                    Some(id) => Route::User { id },
                    None => Route::NotFound,
                }
            }
        },
        Method::Post => {
            if same_text(path, "/api/echo") {
                Route::EchoText
            } else if same_text(path, "/api/json") {
                Route::EchoJson
            } else {
                Route::NotFound
            }
        },
        Method::Other => Route::NotFound,
    }
}

/// Tells immediate routes from streaming ones.
pub fn answer(route: Route) -> (kind: Answer)
    ensures
        kind == answer_of(route),
{
    match route {
        Route::NotFound => Answer::Missing,
        Route::Bytes => Answer::Streaming,
        Route::Events => Answer::Streaming,
        _ => Answer::Immediate,
    }
}

/// Where a request ends up.
#[derive(Clone, Copy, Debug, PartialEq, Eq, Structural)]
pub enum Outcome {
    /// Turned away by the rate limiter, with the seconds to wait.
    RateLimited { retry_after: u64 },
    /// Turned away for its key.
    Unauthorized,
    /// Handed to a handler, or to none where the route is `NotFound`.
    Dispatched(Route),
}

/// The limiter's answer to a request: a request without a known peer is
/// not counted and always allowed.
pub open spec fn admission_of(
    logs: Map<ClientIdentity, Seq<u64>>,
    peer: Option<ClientIdentity>,
    max: usize,
    window: u64,
    now: u64,
) -> Admission {
    match peer {
        Some(id) => admission_for(history(logs, id), max, window, now),
        None => Admission::Allow,
    }
}

/// The logs once the limiter has seen the request.
pub open spec fn logs_seen(
    logs: Map<ClientIdentity, Seq<u64>>,
    peer: Option<ClientIdentity>,
    max: usize,
    window: u64,
    now: u64,
) -> Map<ClientIdentity, Seq<u64>> {
    match peer {
        Some(id) => logs_after(logs, id, max, window, now),
        None => logs,
    }
}

/// The order of the stages: a limiter's rejection closes the request
/// whatever the key check and the table would say, and the key check's rejection
/// closes it whatever the table would say.
pub open spec fn outcome_of(admission: Admission, authorized: bool, route: Route) -> Outcome {
    match admission {
        Admission::Reject { retry_after } => Outcome::RateLimited { retry_after },
        Admission::Allow => if authorized {
            Outcome::Dispatched(route)
        } else {
            Outcome::Unauthorized
        },
    }
}

/// The stages keep their order: what the limiter rejects is closed as rate
/// limited whatever its key and path are, and what the limiter allows but
/// the key check rejects is closed as unauthorized whatever its path is. A
/// handler, or the lack of one, shows only where both stages let the
/// request through.
pub proof fn lemma_stage_order(admission: Admission, authorized: bool, route: Route)
    ensures
        admission matches Admission::Reject { retry_after } ==> outcome_of(
            admission,
            authorized,
            route,
        ) == (Outcome::RateLimited { retry_after }),
        admission == Admission::Allow && !authorized ==> outcome_of(admission, authorized, route)
            == Outcome::Unauthorized,
        outcome_of(admission, authorized, route) is Dispatched <==> admission == Admission::Allow
            && authorized,
        outcome_of(admission, authorized, route) matches Outcome::Dispatched(found) ==> found
            == route,
{
}

/// The text of an optional owned key.
pub open spec fn key_text(key: Option<String>) -> Option<Seq<char>> {
    match key {
        Some(k) => Some(k@),
        None => None,
    }
}

/// The status that closes a request early, or `None` where a handler
/// answers and sets the status itself.
pub open spec fn closing_status_of(outcome: Outcome) -> Option<u16> {
    match outcome {
        Outcome::RateLimited { .. } => Some(STATUS_TOO_MANY_REQUESTS),
        Outcome::Unauthorized => Some(STATUS_UNAUTHORIZED),
        Outcome::Dispatched(Route::NotFound) => Some(STATUS_NOT_FOUND),
        Outcome::Dispatched(_) => None,
    }
}

/// The status that closes a request early.
pub fn closing_status(outcome: Outcome) -> (status: Option<u16>)
    ensures
        status == closing_status_of(outcome),
{
    match outcome {
        Outcome::RateLimited { .. } => Some(STATUS_TOO_MANY_REQUESTS),
        Outcome::Unauthorized => Some(STATUS_UNAUTHORIZED),
        Outcome::Dispatched(Route::NotFound) => Some(STATUS_NOT_FOUND),
        Outcome::Dispatched(_) => None,
    }
}

/// The first stage: the limiter counts the request and answers. This is
/// the one stage that changes shared state, and so the one step that the
/// caller has to make under its lock.
pub fn limit(limiter: &mut RateLimiter, peer: Option<ClientIdentity>, now: u64) -> (admission:
    Admission)
    ensures
        final(limiter).config() == old(limiter).config(),
        final(limiter)@ == logs_seen(
            old(limiter)@,
            peer,
            old(limiter).config().max(),
            old(limiter).config().window(),
            now,
        ),
        admission == admission_of(
            old(limiter)@,
            peer,
            old(limiter).config().max(),
            old(limiter).config().window(),
            now,
        ),
{
    match peer {
        Some(id) => limiter.check(id, now),
        None => Admission::Allow,
    }
}

/// The later stages, for a request that the limiter has answered: the key
/// is looked at only where the limiter allowed the request, and the route
/// table only where the key passed.
pub fn settle(admission: Admission, keys: &AuthConfig, request: &Request) -> (outcome: Outcome)
    ensures
        outcome == outcome_of(
            admission,
            passes(keys.secret(), request.path@, key_text(request.api_key)),
            route_of(request.method, request.path@),
        ),
{
    match admission {
        Admission::Reject { retry_after } => Outcome::RateLimited { retry_after },
        Admission::Allow => {
            let presented: Option<&str> = match &request.api_key {
                Some(key) => Some(key.as_str()),
                None => None,
            };
            match keys.authorize(request.path.as_str(), presented) {
                Authorization::Reject => Outcome::Unauthorized,
                Authorization::Allow => Outcome::Dispatched(
                    route(request.method, request.path.as_str()),
                ),
            }
        },
    }
}

/// Takes one request, arriving at `now`, through all stages. The limiter
/// counts the request before the key is looked at, so a request turned
/// away for its key has still used up one admission.
pub fn process(limiter: &mut RateLimiter, keys: &AuthConfig, request: &Request, now: u64) -> (outcome:
    Outcome)
    ensures
        final(limiter).config() == old(limiter).config(),
        final(limiter)@ == logs_seen(
            old(limiter)@,
            request.peer,
            old(limiter).config().max(),
            old(limiter).config().window(),
            now,
        ),
        outcome == outcome_of(
            admission_of(
                old(limiter)@,
                request.peer,
                old(limiter).config().max(),
                old(limiter).config().window(),
                now,
            ),
            passes(keys.secret(), request.path@, key_text(request.api_key)),
            route_of(request.method, request.path@),
        ),
{
    let admission = limit(limiter, request.peer, now);
    settle(admission, keys, request)
}

} // verus!
