//! Sliding-window admission control: one log of admitted instants per
//! client, pruned lazily whenever that client asks again.

use crate::identity::ClientIdentity;
use std::collections::HashMap;
use std::hash::Hash;
use vstd::prelude::*;

verus! {

broadcast use vstd::std_specs::hash::group_hash_axioms;

/// Seconds a rejected client is told to wait. The hint is fixed; it is not
/// computed from the oldest instant still in the log.
pub const RETRY_AFTER_SECS: u64 = 2;

/// Requests per window of the compiled-in policy.
pub const STANDARD_MAX: usize = 10;

/// Window of the compiled-in policy: ten seconds.
pub const STANDARD_WINDOW: u64 = 10_000_000_000;

/// How long ago `t` was at `now`. An instant that lies after `now` has age 0.
pub open spec fn age(t: u64, now: u64) -> int {
    if t <= now {
        now - t
    } else {
        0
    }
}

/// Whether an admission at `t` still counts at `now`. An entry whose age
/// equals the window has expired.
pub open spec fn is_live(t: u64, now: u64, window: u64) -> bool {
    age(t, now) < window
}

/// The log without its expired entries, order kept.
pub open spec fn pruned(log: Seq<u64>, now: u64, window: u64) -> Seq<u64> {
    log.filter(|t: u64| is_live(t, now, window))
}

/// Whether a client with this log is admitted at `now`.
pub open spec fn admits(log: Seq<u64>, max: usize, window: u64, now: u64) -> bool {
    pruned(log, now, window).len() < max
}

/// The client's log after it asked at `now`: pruned, and extended by `now`
/// when the request was admitted.
pub open spec fn log_after(log: Seq<u64>, max: usize, window: u64, now: u64) -> Seq<u64> {
    if admits(log, max, window, now) {
        pruned(log, now, window).push(now)
    } else {
        pruned(log, now, window)
    }
}

/// The log kept for `id`; empty for a client never seen.
pub open spec fn history(logs: Map<ClientIdentity, Seq<u64>>, id: ClientIdentity) -> Seq<u64> {
    if logs.contains_key(id) {
        logs[id]
    } else {
        Seq::empty()
    }
}

/// All logs after `id` asked at `now`. Only the log of `id` changes.
pub open spec fn logs_after(
    logs: Map<ClientIdentity, Seq<u64>>,
    id: ClientIdentity,
    max: usize,
    window: u64,
    now: u64,
) -> Map<ClientIdentity, Seq<u64>> {
    logs.insert(id, log_after(history(logs, id), max, window, now))
}

/// The limiter's answer to one request.
#[derive(Clone, Copy, Debug, PartialEq, Eq, Structural)]
pub enum Admission {
    Allow,
    Reject { retry_after: u64 },
}

/// The answer that a log calls for.
pub open spec fn admission_for(log: Seq<u64>, max: usize, window: u64, now: u64) -> Admission {
    if admits(log, max, window, now) {
        Admission::Allow
    } else {
        Admission::Reject { retry_after: RETRY_AFTER_SECS }
    }
}

/// At most `max` admissions within any `window` nanoseconds. Both are
/// positive, and fixed once the value exists.
#[derive(Clone, Copy, Debug)]
pub struct RateConfig {
    max: usize,
    window: u64,
}

impl RateConfig {
    #[verifier::type_invariant]
    spec fn positive(self) -> bool {
        self.max > 0 && self.window > 0
    }

    pub closed spec fn spec_max(self) -> usize {
        self.max
    }

    pub closed spec fn spec_window(self) -> u64 {
        self.window
    }

    /// A policy of `max` requests per `window` nanoseconds, if both are positive.
    pub fn new(max: usize, window: u64) -> (cfg: Option<RateConfig>)
        ensures
            cfg is Some <==> max > 0 && window > 0,
            cfg matches Some(c) ==> c.max() == max && c.window() == window,
    {
        if max > 0 && window > 0 {
            Some(RateConfig { max, window })
        } else {
            None
        }
    }

    /// Ten requests per ten seconds.
    pub fn standard() -> (cfg: RateConfig)
        ensures
            cfg.max() == STANDARD_MAX,
            cfg.window() == STANDARD_WINDOW,
    {
        RateConfig { max: STANDARD_MAX, window: STANDARD_WINDOW }
    }

    #[verifier::when_used_as_spec(spec_max)]
    pub fn max(self) -> (max: usize)
        ensures
            max == self.max(),
            max > 0,
    {
        proof {
            use_type_invariant(self);
        }
        self.max
    }

    #[verifier::when_used_as_spec(spec_window)]
    pub fn window(self) -> (window: u64)
        ensures
            window == self.window(),
            window > 0,
    {
        proof {
            use_type_invariant(self);
        }
        self.window
    }
}

/// Appending one instant to a log appends it to the pruned log exactly when
/// it is live.
proof fn lemma_pruned_push(log: Seq<u64>, t: u64, now: u64, window: u64)
    ensures
        pruned(log.push(t), now, window) == if is_live(t, now, window) {
            pruned(log, now, window).push(t)
        } else {
            pruned(log, now, window)
        },
{
    reveal(Seq::filter);
    assert(log.push(t).drop_last() == log);
}

/// A log whose entries are all live is its own pruning.
proof fn lemma_pruned_all_live(log: Seq<u64>, now: u64, window: u64)
    requires
        forall|i: int| 0 <= i < log.len() ==> is_live(#[trigger] log[i], now, window),
    ensures
        pruned(log, now, window) == log,
    decreases log.len(),
{
    reveal(Seq::filter);
    if log.len() > 0 {
        lemma_pruned_all_live(log.drop_last(), now, window);
        assert(log.drop_last().push(log.last()) == log);
    }
}

/// A log with an expired entry shrinks when pruned.
proof fn lemma_pruned_shorter(log: Seq<u64>, i: int, now: u64, window: u64)
    requires
        0 <= i < log.len(),
        !is_live(log[i], now, window),
    ensures
        pruned(log, now, window).len() < log.len(),
    decreases log.len(),
{
    reveal(Seq::filter);
    let front = log.drop_last();
    if i == log.len() - 1 {
        front.lemma_filter_len(|t: u64| is_live(t, now, window));
    } else {
        lemma_pruned_shorter(front, i, now, window);
    }
}

/// Once a client has asked at `now`, every entry of its log is live at
/// `now`: nothing older than the window is kept.
pub proof fn lemma_log_after_live(log: Seq<u64>, max: usize, window: u64, now: u64)
    requires
        window > 0,
    ensures
        forall|i: int|
            0 <= i < log_after(log, max, window, now).len() ==> is_live(
                #[trigger] log_after(log, max, window, now)[i],
                now,
                window,
            ),
{
    let keep = |t: u64| is_live(t, now, window);
    let kept = pruned(log, now, window);
    assert forall|i: int| 0 <= i < kept.len() implies is_live(#[trigger] kept[i], now, window) by {
        log.lemma_filter_pred(keep, i);
    }
    assert(is_live(now, now, window));
}

/// A log of at most `max` entries stays that short.
pub proof fn lemma_log_after_bounded(log: Seq<u64>, max: usize, window: u64, now: u64)
    requires
        log.len() <= max,
    ensures
        log_after(log, max, window, now).len() <= max,
{
    log.lemma_filter_len(|t: u64| is_live(t, now, window));
}

/// The window's edge belongs to the past: an entry whose age is exactly
/// the window has expired, and in a log of at most `max` entries it makes
/// room for the request that arrives at that instant.
pub proof fn lemma_window_edge_frees_capacity(
    log: Seq<u64>,
    i: int,
    max: usize,
    window: u64,
    now: u64,
)
    requires
        0 <= i < log.len(),
        log.len() <= max,
        log[i] + window == now,
    ensures
        !is_live(log[i], now, window),
        admits(log, max, window, now),
        log_after(log, max, window, now) == pruned(log, now, window).push(now),
{
    lemma_pruned_shorter(log, i, now, window);
}

/// How many of the requests arriving at `times`, in this order, a client
/// with this log gets through.
pub open spec fn admitted_count(log: Seq<u64>, times: Seq<u64>, max: usize, window: u64) -> nat
    decreases times.len(),
{
    if times.len() == 0 {
        0
    } else {
        let first: nat = if admits(log, max, window, times[0]) {
            1
        } else {
            0
        };
        first + admitted_count(
            log_after(log, max, window, times[0]),
            times.drop_first(),
            max,
            window,
        )
    }
}

/// No instant of `times` has expired when a later one of them arrives.
pub open spec fn within_one_window(times: Seq<u64>, window: u64) -> bool {
    forall|i: int, j: int|
        0 <= i < j < times.len() ==> is_live(#[trigger] times[i], #[trigger] times[j], window)
}

/// A burst on top of earlier admissions: where none of the log's entries
/// and none of the burst's instants expires before the burst is over, the
/// burst gets exactly as many requests through as the log has room for.
pub proof fn lemma_burst_fills_the_room(log: Seq<u64>, times: Seq<u64>, max: usize, window: u64)
    requires
        window > 0,
        log.len() <= max,
        within_one_window(times, window),
        forall|i: int, j: int|
            0 <= i < log.len() && 0 <= j < times.len() ==> is_live(
                #[trigger] log[i],
                #[trigger] times[j],
                window,
            ),
    ensures
        admitted_count(log, times, max, window) == if times.len() <= max - log.len() {
            times.len() as int
        } else {
            max - log.len()
        },
    decreases times.len(),
{
    if times.len() > 0 {
        let now = times[0];
        let rest = times.drop_first();
        let next = log_after(log, max, window, now);
        assert forall|i: int| 0 <= i < log.len() implies is_live(#[trigger] log[i], now, window) by {
            assert(is_live(log[i], times[0], window));
        }
        lemma_pruned_all_live(log, now, window);
        assert forall|i: int, j: int| 0 <= i < j < rest.len() implies is_live(
            #[trigger] rest[i],
            #[trigger] rest[j],
            window,
        ) by {
            assert(is_live(times[i + 1], times[j + 1], window));
        }
        assert forall|i: int, j: int| 0 <= i < next.len() && 0 <= j < rest.len() implies is_live(
            #[trigger] next[i],
            #[trigger] rest[j],
            window,
        ) by {
            if i < log.len() {
                assert(is_live(log[i], times[j + 1], window));
            } else {
                assert(is_live(times[0], times[j + 1], window));
            }
        }
        lemma_burst_fills_the_room(next, rest, max, window);
    }
}

/// A burst from a client not seen before: however many requests it sends
/// within one window, and in whatever order they are served, exactly the
/// first `max` of them are let through, none lost and none counted twice.
pub proof fn lemma_burst_admits_min(times: Seq<u64>, max: usize, window: u64)
    requires
        window > 0,
        within_one_window(times, window),
    ensures
        admitted_count(Seq::empty(), times, max, window) == if times.len() <= max {
            times.len()
        } else {
            max as nat
        },
{
    lemma_burst_fills_the_room(Seq::empty(), times, max, window);
}

fn live(t: u64, now: u64, window: u64) -> (l: bool)
    ensures
        l == is_live(t, now, window),
{
    if t <= now {
        now - t < window
    } else {
        0 < window
    }
}

/// Copies the live entries of `log`, in order.
fn prune(log: &Vec<u64>, now: u64, window: u64) -> (kept: Vec<u64>)
    ensures
        kept@ == pruned(log@, now, window),
{
    let mut kept: Vec<u64> = Vec::new();
    let mut i: usize = 0;
    assert(log@.take(0) == Seq::<u64>::empty());
    assert(pruned(Seq::<u64>::empty(), now, window) == Seq::<u64>::empty()) by {
        reveal(Seq::filter);
    }
    while i < log.len()
        invariant
            i <= log.len(),
            kept@ == pruned(log@.take(i as int), now, window),
        decreases log.len() - i,
    {
        let t = log[i];
        proof {
            lemma_pruned_push(log@.take(i as int), t, now, window);
            assert(log@.take(i + 1) == log@.take(i as int).push(t));
        }
        if live(t, now, window) {
            kept.push(t);
        }
        i += 1;
    }
    assert(log@.take(log.len() as int) == log@);
    kept
}

/// The log filed under `key`; empty where the table has none.
spec fn stored<K>(table: Map<K, Vec<u64>>, key: K) -> Seq<u64> {
    if table.contains_key(key) {
        table[key]@
    } else {
        Seq::empty()
    }
}

/// One request against the table of one address family.
fn advance<K: Copy + Eq + Hash>(
    table: &mut HashMap<K, Vec<u64>>,
    key: K,
    max: usize,
    window: u64,
    now: u64,
) -> (answer: Admission)
    requires
        vstd::std_specs::hash::obeys_key_model::<K>(),
        forall|k: K| #[trigger] old(table)@.contains_key(k) ==> old(table)@[k]@.len() <= max,
    ensures
        final(table)@.dom() == old(table)@.dom().insert(key),
        final(table)@[key]@ == log_after(stored(old(table)@, key), max, window, now),
        forall|k: K|
            k != key && #[trigger] old(table)@.contains_key(k) ==> final(table)@[k] == old(
                table,
            )@[k],
        forall|k: K| #[trigger] final(table)@.contains_key(k) ==> final(table)@[k]@.len() <= max,
        answer == admission_for(stored(old(table)@, key), max, window, now),
{
    let log = match table.remove(&key) {
        Some(log) => log,
        None => Vec::new(),
    };
    let mut kept = prune(&log, now, window);
    proof {
        log@.lemma_filter_len(|t: u64| is_live(t, now, window));
    }
    let answer = if kept.len() >= max {
        Admission::Reject { retry_after: RETRY_AFTER_SECS }
    } else {
        kept.push(now);
        Admission::Allow
    };
    table.insert(key, kept);
    answer
}

/// The shared admission state: the policy and, for each client seen so far,
/// the instants of its admitted requests that were live when it last asked.
pub struct RateLimiter {
    cfg: RateConfig,
    v4: HashMap<u32, Vec<u64>>,
    v6: HashMap<u128, Vec<u64>>,
}

impl View for RateLimiter {
    type V = Map<ClientIdentity, Seq<u64>>;

    closed spec fn view(&self) -> Map<ClientIdentity, Seq<u64>> {
        Map::new(
            |id: ClientIdentity|
                match id {
                    ClientIdentity::V4(a) => self.v4@.contains_key(a),
                    ClientIdentity::V6(a) => self.v6@.contains_key(a),
                },
            |id: ClientIdentity|
                match id {
                    ClientIdentity::V4(a) => self.v4@[a]@,
                    ClientIdentity::V6(a) => self.v6@[a]@,
                },
        )
    }
}

impl RateLimiter {
    /// No log is longer than the policy's `max`.
    #[verifier::type_invariant]
    spec fn bounded(self) -> bool {
        &&& forall|a: u32| #[trigger]
            self.v4@.contains_key(a) ==> self.v4@[a]@.len() <= self.cfg.spec_max()
        &&& forall|a: u128| #[trigger]
            self.v6@.contains_key(a) ==> self.v6@[a]@.len() <= self.cfg.spec_max()
    }

    /// The policy this limiter enforces.
    pub closed spec fn config(&self) -> RateConfig {
        self.cfg
    }

    /// A limiter that has seen no client.
    pub fn new(cfg: RateConfig) -> (limiter: RateLimiter)
        ensures
            limiter.config() == cfg,
            limiter@ == Map::<ClientIdentity, Seq<u64>>::empty(),
    {
        let limiter = RateLimiter { cfg, v4: HashMap::new(), v6: HashMap::new() };
        assert(limiter@ =~= Map::<ClientIdentity, Seq<u64>>::empty());
        limiter
    }

    /// How many admissions are on record for `id`: never more than `max`.
    pub fn recorded(&self, id: ClientIdentity) -> (n: usize)
        ensures
            n == history(self@, id).len(),
            n <= self.config().max(),
    {
        proof {
            use_type_invariant(self);
        }
        let stored = match id {
            ClientIdentity::V4(a) => self.v4.get(&a),
            ClientIdentity::V6(a) => self.v6.get(&a),
        };
        match stored {
            Some(log) => log.len(),
            None => 0,
        }
    }

    /// Decides one request of `id` arriving at `now`: prunes the client's
    /// log, rejects if `max` live entries remain, and otherwise records
    /// `now` and allows. No other client's log is touched.
    pub fn check(&mut self, id: ClientIdentity, now: u64) -> (answer: Admission)
        ensures
            final(self).config() == old(self).config(),
            final(self)@ == logs_after(
                old(self)@,
                id,
                old(self).config().max(),
                old(self).config().window(),
                now,
            ),
            answer == admission_for(
                history(old(self)@, id),
                old(self).config().max(),
                old(self).config().window(),
                now,
            ),
            forall|i: int|
                0 <= i < final(self)@[id].len() ==> is_live(
                    #[trigger] final(self)@[id][i],
                    now,
                    old(self).config().window(),
                ),
    {
        proof {
            use_type_invariant(&*self);
        }
        let max = self.cfg.max();
        let window = self.cfg.window();
        proof {
            lemma_log_after_live(history(old(self)@, id), max, window, now);
        }
        // Each family's table is taken out, advanced and put back, so that
        // the bound on the logs holds whenever `self` is whole.
        let answer = match id {
            ClientIdentity::V4(a) => {
                let mut table: HashMap<u32, Vec<u64>> = HashMap::new();
                core::mem::swap(&mut self.v4, &mut table);
                let answer = advance(&mut table, a, max, window, now);
                core::mem::swap(&mut self.v4, &mut table);
                answer
            },
            ClientIdentity::V6(a) => {
                let mut table: HashMap<u128, Vec<u64>> = HashMap::new();
                core::mem::swap(&mut self.v6, &mut table);
                let answer = advance(&mut table, a, max, window, now);
                core::mem::swap(&mut self.v6, &mut table);
                answer
            },
        };
        assert(self@ =~= logs_after(old(self)@, id, max, window, now));
        answer
    }
}

} // verus!
