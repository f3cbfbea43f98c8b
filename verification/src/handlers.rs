//! What the handlers compute, apart from reading the request and writing
//! the response.

use crate::ambient::{chance, utc_now_rfc3339, utc_now_timestamp};
use crate::text::{
    append_decimal, append_signed_decimal, decimal, parse_u64, signed_decimal, unsigned_numeral,
};
use vstd::prelude::*;
use vstd::string::StringExecFns;

verus! {

/// Status of a handler that succeeded.
pub const STATUS_OK: u16 = 200;

/// Status of a handler that failed.
pub const STATUS_INTERNAL_SERVER_ERROR: u16 = 500;

/// Kilobytes of a byte stream whose request names no usable number.
pub const DEFAULT_KILOBYTES: usize = 1;

/// Milliseconds that the slow handler sleeps where the request names no
/// usable number.
pub const DEFAULT_DELAY_MS: u64 = 1500;

/// The greeting for `name`, and for the world where no name is given.
pub open spec fn greeting(name: Option<&str>) -> Seq<char> {
    let who = match name {
        Some(who) => who@,
        None => "World"@,
    };
    "Hello, "@ + who + "!"@
}

/// The body of the hello handler.
pub fn hello(name: Option<&str>) -> (body: String)
    ensures
        body@ == greeting(name),
{
    let mut body = String::from_str("Hello, ");
    match name {
        Some(who) => body.append(who),
        None => body.append("World"),
    }
    body.append("!");
    body
}

/// The sum of `a` and `b`, where `i64` can hold it.
pub fn sum(a: i64, b: i64) -> (total: i64)
    requires
        i64::MIN <= a + b <= i64::MAX,
    ensures
        total == a + b,
{
    a + b
}

/// The echo of a text body.
pub fn echo(body: &str) -> (reply: String)
    ensures
        reply@ == "ECHO: "@ + body@,
{
    let mut reply = String::from_str("ECHO: ");
    reply.append(body);
    reply
}

/// What the JSON echo handler is sent.
#[derive(Debug)]
pub struct EchoPayload {
    pub message: String,
    pub tags: Option<Vec<String>>,
    pub urgent: bool,
}

/// What the JSON echo handler sends back.
#[derive(Debug)]
pub struct EchoReceipt {
    pub received: EchoPayload,
    /// When the payload arrived, as the clock's text.
    pub at: String,
}

/// The receipt for a payload that arrives now: the payload untouched, and
/// the time, of which nothing is promised.
pub fn echo_json(received: EchoPayload) -> (receipt: EchoReceipt)
    ensures
        receipt.received == received,
{
    EchoReceipt { received, at: utc_now_rfc3339() }
}

/// The body of the time handler for the clock reading `seconds`.
pub fn time_text(seconds: i64) -> (body: String)
    ensures
        body@ == signed_decimal(seconds as int),
{
    let mut body = String::new();
    append_signed_decimal(&mut body, seconds);
    assert(Seq::<char>::empty() + signed_decimal(seconds as int) == signed_decimal(seconds as int));
    body
}

/// The body of the time handler now: the clock's seconds in decimal,
/// whatever they are.
pub fn time_now() -> (body: String)
    ensures
        exists|seconds: i64| body@ == signed_decimal(seconds as int),
{
    time_text(utc_now_timestamp())
}

/// The number that a query parameter names: the value of the numeral it
/// holds if that is at most `limit`, and `fallback` where the parameter is
/// missing, is no unsigned numeral or names more.
pub open spec fn number_asked(raw: Option<&str>, limit: u64, fallback: u64) -> u64 {
    match raw {
        Some(text) => match unsigned_numeral(text@) {
            Some(n) => if n <= limit {
                n
            } else {
                fallback
            },
            None => fallback,
        },
        None => fallback,
    }
}

fn number_or(raw: Option<&str>, limit: u64, fallback: u64) -> (n: u64)
    ensures
        n == number_asked(raw, limit, fallback),
{
    match raw {
        Some(text) => match parse_u64(text) {
            Some(n) => if n <= limit {
                n
            } else {
                fallback
            },
            None => fallback,
        },
        None => fallback,
    }
}

/// The size, in kilobytes, of the byte stream that a request asks for.
pub fn kilobytes_asked(raw: Option<&str>) -> (kb: usize)
    ensures
        kb == number_asked(raw, usize::MAX as u64, DEFAULT_KILOBYTES as u64),
{
    number_or(raw, usize::MAX as u64, DEFAULT_KILOBYTES as u64) as usize
}

/// The delay, in milliseconds, that a request asks of the slow handler.
pub fn delay_asked(raw: Option<&str>) -> (ms: u64)
    ensures
        ms == number_asked(raw, u64::MAX, DEFAULT_DELAY_MS),
{
    number_or(raw, u64::MAX, DEFAULT_DELAY_MS)
}

/// The disposition header of a byte stream of `kb` kilobytes: an
/// attachment whose file name tells the size.
pub fn attachment_disposition(kb: usize) -> (value: String)
    ensures
        value@ == "attachment; filename=sample_"@ + decimal(kb as nat) + "KB.bin"@,
{
    let mut value = String::from_str("attachment; filename=sample_");
    append_decimal(&mut value, kb as u64);
    value.append("KB.bin");
    value
}

/// What the user handler tells of one user.
#[derive(Debug)]
pub struct UserProfile {
    pub id: i64,
    pub name: String,
    /// When the profile was made, as the clock's text.
    pub at: String,
}

/// The display name of user `id`.
pub open spec fn user_name(id: i64) -> Seq<char> {
    "User #"@ + signed_decimal(id as int)
}

/// The profile of user `id`, made at `at`.
pub fn user_profile(id: i64, at: String) -> (profile: UserProfile)
    ensures
        profile.id == id,
        profile.name@ == user_name(id),
        profile.at == at,
{
    let mut name = String::from_str("User #");
    append_signed_decimal(&mut name, id);
    UserProfile { id, name, at }
}

/// The profile of user `id`, made now. The time is whatever the clock
/// says, so nothing is promised of `at`.
pub fn user(id: i64) -> (profile: UserProfile)
    ensures
        profile.id == id,
        profile.name@ == user_name(id),
{
    user_profile(id, utc_now_rfc3339())
}

/// How the flaky handler answers.
#[derive(Clone, Copy, Debug)]
pub struct FlakyReply {
    pub status: u16,
    pub ok: bool,
    pub err: Option<&'static str>,
}

/// The one reply that goes with each outcome: success has the status of
/// success and no error text, failure the status of failure and the text.
pub open spec fn is_flaky_reply(reply: FlakyReply, ok: bool) -> bool {
    &&& reply.ok == ok
    &&& reply.status == if ok {
        STATUS_OK
    } else {
        STATUS_INTERNAL_SERVER_ERROR
    }
    &&& match reply.err {
        Some(text) => !ok && text@ == "random fail"@,
        None => ok,
    }
}

/// The flaky handler's reply once the coin has fallen.
pub fn flaky_reply(ok: bool) -> (reply: FlakyReply)
    ensures
        is_flaky_reply(reply, ok),
{
    if ok {
        FlakyReply { status: STATUS_OK, ok: true, err: None }
    } else {
        FlakyReply { status: STATUS_INTERNAL_SERVER_ERROR, ok: false, err: Some("random fail") }
    }
}

/// Succeeds with a chance of `numerator` in `denominator` and fails
/// otherwise. Which of the two comes is chance, but for the odds that
/// leave none; the reply is the one that goes with it.
pub fn flaky_at(numerator: u32, denominator: u32) -> (reply: FlakyReply)
    requires
        0 < denominator,
        numerator <= denominator,
    ensures
        is_flaky_reply(reply, reply.ok),
        numerator == denominator ==> reply.ok,
        numerator == 0 ==> !reply.ok,
{
    flaky_reply(chance(numerator, denominator))
}

/// Succeeds with a chance of one in two and fails otherwise.
pub fn flaky() -> (reply: FlakyReply)
    ensures
        is_flaky_reply(reply, reply.ok),
{
    flaky_at(1, 2)
}

} // verus!
