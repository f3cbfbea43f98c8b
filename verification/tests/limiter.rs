use backend::identity::ClientIdentity;
use backend::limiter::{
    Admission, RateConfig, RateLimiter, RETRY_AFTER_SECS, STANDARD_MAX, STANDARD_WINDOW,
};

const SEC: u64 = 1_000_000_000;

fn limiter(max: usize, window_secs: u64) -> RateLimiter {
    RateLimiter::new(RateConfig::new(max, window_secs * SEC).unwrap())
}

fn after(times_secs: &[u64], max: usize, window_secs: u64, id: ClientIdentity) -> RateLimiter {
    let mut l = limiter(max, window_secs);
    for t in times_secs {
        assert_eq!(l.check(id, t * SEC), Admission::Allow);
    }
    l
}

#[test]
fn fourth_request_inside_the_window_is_rejected() {
    let id = ClientIdentity::V4(0x7f00_0001);
    let mut l = after(&[0, 1, 2], 3, 10, id);
    assert_eq!(l.check(id, 3 * SEC), Admission::Reject { retry_after: 2 });
    assert_eq!(l.recorded(id), 3);
}

#[test]
fn fourth_request_after_the_oldest_aged_out_is_admitted() {
    let id = ClientIdentity::V4(0x7f00_0001);
    let mut l = after(&[0, 1, 2], 3, 10, id);
    assert_eq!(l.check(id, 11 * SEC), Admission::Allow);
    // The entries of t=0 and t=1 are at least one window old by t=11.
    assert_eq!(l.recorded(id), 2);
}

#[test]
fn entry_exactly_one_window_old_has_expired() {
    let id = ClientIdentity::V6(1);
    let mut l = after(&[0], 1, 10, id);
    assert_eq!(l.check(id, 10 * SEC), Admission::Allow);
    assert_eq!(l.recorded(id), 1);
}

#[test]
fn entry_one_nanosecond_short_of_the_window_still_counts() {
    let id = ClientIdentity::V6(1);
    let mut l = after(&[0], 1, 10, id);
    assert_eq!(l.check(id, 10 * SEC - 1), Admission::Reject { retry_after: RETRY_AFTER_SECS });
    assert_eq!(l.check(id, 10 * SEC), Admission::Allow);
}

#[test]
fn full_log_with_oldest_at_the_edge_admits() {
    let id = ClientIdentity::V4(9);
    let mut l = after(&[5, 6, 7], 3, 10, id);
    assert_eq!(l.check(id, 14 * SEC), Admission::Reject { retry_after: 2 });
    assert_eq!(l.check(id, 15 * SEC), Admission::Allow);
    assert_eq!(l.check(id, 15 * SEC), Admission::Reject { retry_after: 2 });
}

#[test]
fn burst_admits_exactly_max() {
    let id = ClientIdentity::V4(1);
    let mut l = limiter(10, 10);
    let mut admitted = 0;
    for i in 0..25u64 {
        if l.check(id, 4 * SEC + i) == Admission::Allow {
            admitted += 1;
        }
    }
    assert_eq!(admitted, 10);
    assert_eq!(l.recorded(id), 10);
}

#[test]
fn burst_smaller_than_max_is_admitted_whole() {
    let id = ClientIdentity::V4(1);
    let mut l = limiter(10, 10);
    let mut admitted = 0;
    for _ in 0..4 {
        if l.check(id, 7 * SEC) == Admission::Allow {
            admitted += 1;
        }
    }
    assert_eq!(admitted, 4);
    assert_eq!(l.recorded(id), 4);
}

#[test]
fn burst_served_out_of_order_admits_exactly_max() {
    let id = ClientIdentity::V4(1);
    let mut l = limiter(3, 10);
    let times = [5 * SEC, 2 * SEC, 9 * SEC, 3 * SEC, 4 * SEC];
    let admitted = times.iter().filter(|t| l.check(id, **t) == Admission::Allow).count();
    assert_eq!(admitted, 3);
}

#[test]
fn clients_do_not_share_a_log() {
    let a = ClientIdentity::V4(1);
    let b = ClientIdentity::V4(2);
    let mut l = after(&[0, 0], 2, 10, a);
    assert_eq!(l.check(a, SEC), Admission::Reject { retry_after: 2 });
    assert_eq!(l.check(b, SEC), Admission::Allow);
    assert_eq!(l.recorded(a), 2);
    assert_eq!(l.recorded(b), 1);
}

#[test]
fn address_families_are_distinct_clients() {
    let v4 = ClientIdentity::V4(7);
    let v6 = ClientIdentity::V6(7);
    let mut l = after(&[0], 1, 10, v4);
    assert_eq!(l.check(v6, 0), Admission::Allow);
    assert_eq!(l.check(v4, 0), Admission::Reject { retry_after: 2 });
    assert_eq!(l.check(v6, 0), Admission::Reject { retry_after: 2 });
}

#[test]
fn rejected_request_is_not_recorded() {
    let id = ClientIdentity::V4(3);
    let mut l = after(&[0], 1, 10, id);
    for t in 1..10 {
        assert_eq!(l.check(id, t * SEC), Admission::Reject { retry_after: 2 });
    }
    assert_eq!(l.recorded(id), 1);
    assert_eq!(l.check(id, 10 * SEC), Admission::Allow);
}

#[test]
fn rejection_prunes_what_has_expired() {
    let id = ClientIdentity::V4(3);
    let mut l = after(&[0, 8, 9], 3, 10, id);
    assert_eq!(l.check(id, 9 * SEC), Admission::Reject { retry_after: 2 });
    assert_eq!(l.recorded(id), 3);
    assert_eq!(l.check(id, 12 * SEC), Admission::Allow);
    assert_eq!(l.recorded(id), 3);
    assert_eq!(l.check(id, 30 * SEC), Admission::Allow);
    assert_eq!(l.recorded(id), 1);
}

#[test]
fn instant_ahead_of_now_counts_as_live() {
    let id = ClientIdentity::V4(4);
    let mut l = after(&[100], 1, 10, id);
    assert_eq!(l.check(id, 50 * SEC), Admission::Reject { retry_after: 2 });
    assert_eq!(l.check(id, 110 * SEC), Admission::Allow);
}

#[test]
fn unseen_client_has_nothing_recorded() {
    let l = limiter(3, 10);
    assert_eq!(l.recorded(ClientIdentity::V4(1)), 0);
    assert_eq!(l.recorded(ClientIdentity::V6(1)), 0);
}

#[test]
fn retry_hint_is_two_seconds() {
    assert_eq!(RETRY_AFTER_SECS, 2);
}

#[test]
fn config_needs_positive_max_and_window() {
    assert!(RateConfig::new(0, SEC).is_none());
    assert!(RateConfig::new(1, 0).is_none());
    assert!(RateConfig::new(0, 0).is_none());
    let cfg = RateConfig::new(3, 10 * SEC).unwrap();
    assert_eq!(cfg.max(), 3);
    assert_eq!(cfg.window(), 10 * SEC);
}

#[test]
fn standard_policy_is_ten_per_ten_seconds() {
    let cfg = RateConfig::standard();
    assert_eq!(cfg.max(), 10);
    assert_eq!(cfg.window(), 10 * SEC);
    assert_eq!(STANDARD_MAX, 10);
    assert_eq!(STANDARD_WINDOW, 10 * SEC);
}

#[test]
fn latest_instants_are_usable() {
    let id = ClientIdentity::V4(5);
    let mut l = limiter(2, 10);
    assert_eq!(l.check(id, u64::MAX), Admission::Allow);
    assert_eq!(l.check(id, u64::MAX), Admission::Allow);
    assert_eq!(l.check(id, u64::MAX), Admission::Reject { retry_after: 2 });
    assert_eq!(l.check(id, 0), Admission::Reject { retry_after: 2 });
}

#[test]
fn limiter_behind_a_lock_admits_exactly_max() {
    let id = ClientIdentity::V4(0x0a00_0001);
    let shared = std::sync::Arc::new(std::sync::Mutex::new(limiter(10, 10)));
    let handles: Vec<_> = (0..32u64).map(|i| (i, std::sync::Arc::clone(&shared))).collect();
    let admitted = handles
        .into_iter()
        .rev()
        .filter(|(i, l)| l.lock().unwrap().check(id, SEC + i) == Admission::Allow)
        .count();
    assert_eq!(admitted, 10);
    assert_eq!(shared.lock().unwrap().recorded(id), 10);
}
