//! What only the running machine can supply: chance and the wall clock.
//! Verus takes the contracts in this file on trust.

use vstd::prelude::*;

verus! {

/// A draw that comes out `true` with a chance of `numerator` in
/// `denominator`. Calls `rand::thread_rng` and, on the generator it
/// returns, `rand::Rng::gen_ratio`, which panics on a zero denominator and
/// on a numerator above the denominator. Assumed of the outcome is only
/// what `gen_ratio` documents: it is `true` when the two numbers are equal
/// and `false` when the numerator is 0. The generator is seeded from the
/// operating system on first use in a thread and panics if that fails.
#[verifier::external_body]
pub(crate) fn chance(numerator: u32, denominator: u32) -> (hit: bool)
    requires
        0 < denominator,
        numerator <= denominator,
    ensures
        numerator == denominator ==> hit,
        numerator == 0 ==> !hit,
{
    rand::Rng::gen_ratio(&mut rand::thread_rng(), numerator, denominator)
}

/// The wall clock, in UTC, as an RFC 3339 text. Calls `chrono::Utc::now`
/// and `chrono::DateTime::to_rfc3339`. No property of the text is assumed.
/// `Utc::now` panics if the system clock is set before 1970.
#[verifier::external_body]
pub(crate) fn utc_now_rfc3339() -> (text: String) {
    chrono::Utc::now().to_rfc3339()
}

/// The wall clock as whole seconds since 1970-01-01 00:00:00 UTC. Calls
/// `chrono::Utc::now` and `chrono::DateTime::timestamp`. No property of the
/// number is assumed. `Utc::now` panics if the system clock is set before
/// 1970.
#[verifier::external_body]
pub(crate) fn utc_now_timestamp() -> (seconds: i64) {
    chrono::Utc::now().timestamp()
}

} // verus!
