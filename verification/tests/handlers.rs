use backend::handlers::{
    attachment_disposition, delay_asked, echo, echo_json, flaky, flaky_at, flaky_reply, hello,
    kilobytes_asked, sum, time_now, time_text, user, user_profile, EchoPayload, DEFAULT_DELAY_MS,
    DEFAULT_KILOBYTES, STATUS_INTERNAL_SERVER_ERROR, STATUS_OK,
};

#[test]
fn json_echo_returns_the_payload_with_the_time() {
    let payload = EchoPayload {
        message: String::from("hi"),
        tags: Some(vec![String::from("a"), String::from("b")]),
        urgent: true,
    };
    let receipt = echo_json(payload);
    assert_eq!(receipt.received.message, "hi");
    assert_eq!(receipt.received.tags, Some(vec![String::from("a"), String::from("b")]));
    assert!(receipt.received.urgent);
    assert!(chrono::DateTime::parse_from_rfc3339(&receipt.at).is_ok());
    let bare = echo_json(EchoPayload { message: String::new(), tags: None, urgent: false });
    assert_eq!(bare.received.message, "");
    assert_eq!(bare.received.tags, None);
    assert!(!bare.received.urgent);
}

#[test]
fn greeting_names_the_caller_or_the_world() {
    assert_eq!(hello(None), "Hello, World!");
    assert_eq!(hello(Some("Ada")), "Hello, Ada!");
    assert_eq!(hello(Some("")), "Hello, !");
    assert_eq!(hello(Some("World")), "Hello, World!");
    assert_eq!(hello(Some("日本")), "Hello, 日本!");
}

#[test]
fn echo_puts_its_mark_before_the_body() {
    assert_eq!(echo("ping"), "ECHO: ping");
    assert_eq!(echo(""), "ECHO: ");
    assert_eq!(echo("two\nlines"), "ECHO: two\nlines");
}

#[test]
fn sums() {
    assert_eq!(sum(2, 3), 5);
    assert_eq!(sum(-2, 2), 0);
    assert_eq!(sum(i64::MAX, 0), i64::MAX);
    assert_eq!(sum(i64::MAX, i64::MIN), -1);
    assert_eq!(sum(i64::MIN + 1, -1), i64::MIN);
}

#[test]
fn time_body_is_the_seconds_in_decimal() {
    assert_eq!(time_text(0), "0");
    assert_eq!(time_text(1_700_000_000), "1700000000");
    assert_eq!(time_text(-1), "-1");
}

#[test]
fn time_now_reads_the_clock() {
    let before = chrono::Utc::now().timestamp();
    let body = time_now();
    let after = chrono::Utc::now().timestamp();
    let seconds: i64 = body.parse().expect("seconds in decimal");
    assert!(before <= seconds && seconds <= after);
}

#[test]
fn handler_constants() {
    assert_eq!(STATUS_OK, 200);
    assert_eq!(STATUS_INTERNAL_SERVER_ERROR, 500);
    assert_eq!(DEFAULT_KILOBYTES, 1);
    assert_eq!(DEFAULT_DELAY_MS, 1500);
}

#[test]
fn kilobytes_default_to_one() {
    assert_eq!(kilobytes_asked(None), 1);
    assert_eq!(kilobytes_asked(Some("")), 1);
    assert_eq!(kilobytes_asked(Some("lots")), 1);
    assert_eq!(kilobytes_asked(Some("-5")), 1);
    assert_eq!(kilobytes_asked(Some("5.0")), 1);
    assert_eq!(kilobytes_asked(Some("99999999999999999999999")), 1);
}

#[test]
fn kilobytes_are_read_from_the_parameter() {
    assert_eq!(kilobytes_asked(Some("5")), 5);
    assert_eq!(kilobytes_asked(Some("0")), 0);
    assert_eq!(kilobytes_asked(Some("+12")), 12);
    assert_eq!(kilobytes_asked(Some("0064")), 64);
}

#[test]
fn kilobytes_agree_with_std() {
    for text in ["", "0", "1", "+1", "-1", "x", "4096", "18446744073709551615", "18446744073709551616"] {
        assert_eq!(kilobytes_asked(Some(text)), text.parse::<usize>().ok().unwrap_or(1), "{text:?}");
    }
}

#[test]
fn delay_defaults_to_fifteen_hundred() {
    assert_eq!(delay_asked(None), 1500);
    assert_eq!(delay_asked(Some("soon")), 1500);
    assert_eq!(delay_asked(Some("-1")), 1500);
    assert_eq!(delay_asked(Some("18446744073709551616")), 1500);
}

#[test]
fn delay_is_read_from_the_parameter() {
    assert_eq!(delay_asked(Some("0")), 0);
    assert_eq!(delay_asked(Some("250")), 250);
    assert_eq!(delay_asked(Some("18446744073709551615")), u64::MAX);
}

#[test]
fn disposition_names_the_size() {
    assert_eq!(attachment_disposition(5), "attachment; filename=sample_5KB.bin");
    assert_eq!(attachment_disposition(1), "attachment; filename=sample_1KB.bin");
    assert_eq!(attachment_disposition(0), "attachment; filename=sample_0KB.bin");
    assert_eq!(attachment_disposition(1024), "attachment; filename=sample_1024KB.bin");
}

#[test]
fn profile_names_the_user_by_number() {
    let p = user_profile(42, String::from("2024-01-01T00:00:00+00:00"));
    assert_eq!(p.id, 42);
    assert_eq!(p.name, "User #42");
    assert_eq!(p.at, "2024-01-01T00:00:00+00:00");
    assert_eq!(user_profile(-7, String::new()).name, "User #-7");
    assert_eq!(user_profile(0, String::new()).name, "User #0");
    assert_eq!(user_profile(i64::MIN, String::new()).name, format!("User #{}", i64::MIN));
}

#[test]
fn profile_made_now_carries_the_clock() {
    let p = user(7);
    assert_eq!(p.id, 7);
    assert_eq!(p.name, "User #7");
    let at = chrono::DateTime::parse_from_rfc3339(&p.at).expect("the clock's text");
    assert!(at.timestamp() > 1_600_000_000);
}

#[test]
fn the_two_flaky_replies() {
    let ok = flaky_reply(true);
    assert_eq!((ok.status, ok.ok, ok.err), (200, true, None));
    let failed = flaky_reply(false);
    assert_eq!((failed.status, failed.ok, failed.err), (500, false, Some("random fail")));
}

#[test]
fn flaky_answers_with_one_of_the_two() {
    let mut seen_ok = false;
    let mut seen_failure = false;
    for _ in 0..400 {
        let r = flaky();
        if r.ok {
            assert_eq!((r.status, r.err), (200, None));
            seen_ok = true;
        } else {
            assert_eq!((r.status, r.err), (500, Some("random fail")));
            seen_failure = true;
        }
    }
    assert!(seen_ok && seen_failure);
}

#[test]
fn certain_odds_leave_nothing_to_chance() {
    for _ in 0..200 {
        let sure = flaky_at(1, 1);
        assert_eq!((sure.status, sure.ok, sure.err), (200, true, None));
        let also_sure = flaky_at(7, 7);
        assert!(also_sure.ok);
        let never = flaky_at(0, 1);
        assert_eq!((never.status, never.ok, never.err), (500, false, Some("random fail")));
        let also_never = flaky_at(0, 9);
        assert!(!also_never.ok);
    }
}

#[test]
fn uneven_odds_lean_their_way() {
    let hits = (0..2000).filter(|_| flaky_at(9, 10).ok).count();
    assert!(hits > 1500 && hits < 2000);
    let hits = (0..2000).filter(|_| flaky_at(1, 10).ok).count();
    assert!(hits > 0 && hits < 500);
}
