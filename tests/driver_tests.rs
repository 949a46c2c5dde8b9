use url_prober::courtesy::{plan_probe, plan_with, user_agent, AGENT_COUNT, JITTER_MAX_MS, JITTER_MIN_MS};
use url_prober::driver::{parse_u32, start_outer_from_arg, OuterDriver, OUTER_END};
use url_prober::template::{CandidateKey, UrlTemplate};

#[test]
fn driver_walks_the_keys_inclusively() {
    let mut d = OuterDriver::new(298, OUTER_END);
    assert_eq!(d.next_key(false), Some(298));
    assert_eq!(d.next_key(false), Some(299));
    assert_eq!(d.next_key(false), Some(300));
    assert_eq!(d.next_key(false), None);
    assert_eq!(d.next_key(false), None);
}

#[test]
fn driver_stopped_before_start_yields_nothing() {
    let mut d = OuterDriver::new(1, OUTER_END);
    assert_eq!(d.next_key(true), None);
    assert_eq!(d.next_key(false), None);
}

#[test]
fn driver_stops_between_keys() {
    let mut d = OuterDriver::new(1, 300);
    assert_eq!(d.next_key(false), Some(1));
    assert_eq!(d.next_key(true), None);
    assert_eq!(d.next_key(false), None);
}

#[test]
fn driver_start_beyond_end() {
    let mut d = OuterDriver::new(301, 300);
    assert_eq!(d.next_key(false), None);
    let mut top = OuterDriver::new(u32::MAX, u32::MAX);
    assert_eq!(top.next_key(false), Some(u32::MAX));
    assert_eq!(top.next_key(false), None);
}

#[test]
fn parses_unsigned_numbers() {
    assert_eq!(parse_u32("17"), Some(17));
    assert_eq!(parse_u32("+17"), Some(17));
    assert_eq!(parse_u32("007"), Some(7));
    assert_eq!(parse_u32("4294967295"), Some(u32::MAX));
    assert_eq!(parse_u32("4294967296"), None);
    assert_eq!(parse_u32("99999999999999999999"), None);
    assert_eq!(parse_u32(""), None);
    assert_eq!(parse_u32("+"), None);
    assert_eq!(parse_u32("-3"), None);
    assert_eq!(parse_u32("1a"), None);
    assert_eq!(parse_u32(" 1"), None);
}

#[test]
fn start_argument_falls_back_to_default() {
    assert_eq!(start_outer_from_arg(None), 1);
    assert_eq!(start_outer_from_arg(Some("42")), 42);
    assert_eq!(start_outer_from_arg(Some("0")), 1);
    assert_eq!(start_outer_from_arg(Some("-5")), 1);
    assert_eq!(start_outer_from_arg(Some("abc")), 1);
}

#[test]
fn probe_plan_stays_in_bounds() {
    let tpl = UrlTemplate::new("https://h/{uid}-q-{qnum}", "{uid}", "{qnum}").unwrap();
    for _ in 0..50 {
        let p = plan_probe(&tpl, CandidateKey { inner: 12345, outer: 6 });
        assert_eq!(p.url, "https://h/12345-q-6");
        assert!(JITTER_MIN_MS <= p.jitter_ms && p.jitter_ms < JITTER_MAX_MS);
        assert!(p.agent < AGENT_COUNT);
        assert!(user_agent(p.agent).starts_with("Mozilla/5.0"));
    }
}

#[test]
fn fixed_plan() {
    let tpl = UrlTemplate::new("https://h/{uid}-q-{qnum}", "{uid}", "{qnum}").unwrap();
    let p = plan_with(&tpl, CandidateKey { inner: 1, outer: 2 }, 250, 3);
    assert_eq!(p.url, "https://h/1-q-2");
    assert_eq!(p.jitter_ms, 250);
    assert_eq!(user_agent(p.agent), "Mozilla/5.0 (iPhone; CPU iPhone OS 14_0 like Mac OS X)");
    assert_eq!(user_agent(0), "Mozilla/5.0 (Windows NT 10.0; Win64; x64)");
}
