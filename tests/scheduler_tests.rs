use std::collections::VecDeque;
use url_prober::probe::{evaluate, HttpResponse, ProbeOutcome};
use url_prober::retry::{RetryAction, RetryController};
use url_prober::scheduler::{SchedAction, SchedPhase, Scheduler};
use url_prober::template::{CandidateKey, UrlTemplate};

/// Runs a scheduler over `inner` ids, completing probes oldest first with
/// the outcome `probe` gives; returns the recorded URLs, the largest window
/// seen and the ids admitted.
fn run_key(sched: &mut Scheduler, probe: &dyn Fn(u32) -> ProbeOutcome) -> (Vec<String>, usize, Vec<u32>) {
    let mut pending: VecDeque<u32> = VecDeque::new();
    let mut recorded = Vec::new();
    let mut widest = 0;
    let mut admitted = Vec::new();
    loop {
        match sched.next_action(false) {
            SchedAction::Admit(id) => {
                pending.push_back(id);
                admitted.push(id);
            }
            SchedAction::Await => {
                let id = pending.pop_front().expect("await with nothing in flight");
                if let Some(url) = sched.on_completed(id, probe(id)) {
                    recorded.push(url);
                }
            }
            SchedAction::Finish => break,
        }
        widest = widest.max(sched.in_flight_count());
    }
    (recorded, widest, admitted)
}

#[test]
fn scenario_first_found_settles_the_key() {
    let tpl = UrlTemplate::new("https://x.test/{outer}-item-{inner}", "{inner}", "{outer}").unwrap();
    let mut sched = Scheduler::new(0, 3, 2);
    assert_eq!(sched.next_action(false), SchedAction::Admit(0));
    assert_eq!(sched.next_action(false), SchedAction::Admit(1));
    assert_eq!(sched.next_action(false), SchedAction::Await);
    let url0 = tpl.substitute(CandidateKey { inner: 0, outer: 1 });
    let o0 = evaluate(&url0, Ok(HttpResponse { status: 404, final_url: url0.clone() }), false);
    assert_eq!(sched.on_completed(0, o0), None);
    // A slot opened before the discovery was seen: inner 2 may be admitted.
    assert_eq!(sched.next_action(false), SchedAction::Admit(2));
    assert_eq!(sched.next_action(false), SchedAction::Await);
    let url1 = tpl.substitute(CandidateKey { inner: 1, outer: 1 });
    let o1 = evaluate(&url1, Ok(HttpResponse { status: 200, final_url: url1.clone() }), false);
    assert_eq!(sched.on_completed(1, o1), Some("https://x.test/1-item-1".to_string()));
    assert_eq!(sched.phase(), SchedPhase::Done);
    assert_eq!(sched.next_action(false), SchedAction::Finish);
    // Whatever inner 2 turns out to be, it records nothing more.
    let url2 = tpl.substitute(CandidateKey { inner: 2, outer: 1 });
    assert_eq!(sched.on_completed(2, ProbeOutcome::Found(url2)), None);
    assert_eq!(sched.discovery(), Some("https://x.test/1-item-1".to_string()));
    assert_eq!(sched.issued(), 3);
}

#[test]
fn scenario_found_before_third_admission() {
    let mut sched = Scheduler::new(0, 3, 2);
    assert_eq!(sched.next_action(false), SchedAction::Admit(0));
    assert_eq!(sched.next_action(false), SchedAction::Admit(1));
    assert_eq!(sched.on_completed(1, ProbeOutcome::Found("https://x.test/1-item-1".to_string())), Some("https://x.test/1-item-1".to_string()));
    assert_eq!(sched.next_action(false), SchedAction::Finish);
    assert_eq!(sched.on_completed(0, ProbeOutcome::Rejected(404)), None);
    assert_eq!(sched.issued(), 2);
}

/// The terminal outcome of a candidate whose every request answers 429,
/// and the number of requests made.
fn always_rate_limited(url: &str) -> (ProbeOutcome, u32) {
    let mut c = RetryController::new();
    let mut requests = 0;
    let mut action = c.proceed(false);
    loop {
        match action {
            RetryAction::Attempt => {
                requests += 1;
                let o = evaluate(url, Ok(HttpResponse { status: 429, final_url: url.to_string() }), false);
                action = c.on_outcome(o, false);
            }
            RetryAction::Sleep(_) => action = c.proceed(false),
            RetryAction::Finish(o) => return (o, requests),
        }
    }
}

#[test]
fn scenario_all_rate_limited_yields_nothing() {
    let tpl = UrlTemplate::new("https://x.test/{outer}-item-{inner}", "{inner}", "{outer}").unwrap();
    let mut sched = Scheduler::new(0, 5, 2);
    let probe = |inner: u32| {
        let url = tpl.substitute(CandidateKey { inner, outer: 1 });
        let (o, requests) = always_rate_limited(&url);
        assert_eq!(requests, 4);
        o
    };
    let (recorded, widest, admitted) = run_key(&mut sched, &probe);
    assert!(recorded.is_empty());
    assert!(widest <= 2);
    assert_eq!(admitted, vec![0, 1, 2, 3, 4]);
    assert_eq!(sched.phase(), SchedPhase::Done);
    assert_eq!(sched.discovery(), None);
}

#[test]
fn scenario_stop_mid_filling_drains_in_flight() {
    let mut sched = Scheduler::new(0, 10, 3);
    assert_eq!(sched.next_action(false), SchedAction::Admit(0));
    assert_eq!(sched.next_action(false), SchedAction::Admit(1));
    assert_eq!(sched.next_action(true), SchedAction::Await);
    assert_eq!(sched.phase(), SchedPhase::Draining);
    assert_eq!(sched.on_completed(0, ProbeOutcome::Rejected(404)), None);
    assert_eq!(sched.next_action(true), SchedAction::Await);
    assert_eq!(sched.on_completed(1, ProbeOutcome::Found("u1".to_string())), Some("u1".to_string()));
    assert_eq!(sched.next_action(true), SchedAction::Finish);
    assert_eq!(sched.issued(), 2);
}

#[test]
fn stop_mid_filling_without_discovery() {
    let mut sched = Scheduler::new(0, 10, 3);
    assert_eq!(sched.next_action(false), SchedAction::Admit(0));
    assert_eq!(sched.next_action(true), SchedAction::Await);
    assert_eq!(sched.next_action(false), SchedAction::Await);
    assert_eq!(sched.on_completed(0, ProbeOutcome::Cancelled), None);
    assert_eq!(sched.next_action(false), SchedAction::Finish);
    assert_eq!(sched.issued(), 1);
}

#[test]
fn stop_with_nothing_in_flight_settles_at_once() {
    let mut sched = Scheduler::new(0, 10, 3);
    assert_eq!(sched.next_action(true), SchedAction::Finish);
    assert_eq!(sched.phase(), SchedPhase::Done);
    assert_eq!(sched.issued(), 0);
}

#[test]
fn empty_range_settles_at_once() {
    let mut sched = Scheduler::new(5, 5, 3);
    assert_eq!(sched.next_action(false), SchedAction::Finish);
    let mut reversed = Scheduler::new(9, 3, 3);
    assert_eq!(reversed.next_action(false), SchedAction::Finish);
    assert_eq!(reversed.issued(), 0);
}

#[test]
fn window_never_exceeds_ceiling() {
    let mut sched = Scheduler::new(100, 140, 3);
    let (recorded, widest, admitted) = run_key(&mut sched, &|_| ProbeOutcome::Rejected(404));
    assert!(recorded.is_empty());
    assert_eq!(widest, 3);
    assert_eq!(admitted, (100..140).collect::<Vec<u32>>());
}

#[test]
fn ceiling_one_is_sequential() {
    let mut sched = Scheduler::new(0, 4, 1);
    assert_eq!(sched.next_action(false), SchedAction::Admit(0));
    assert_eq!(sched.next_action(false), SchedAction::Await);
    assert_eq!(sched.on_completed(0, ProbeOutcome::Rejected(404)), None);
    assert_eq!(sched.next_action(false), SchedAction::Admit(1));
    assert_eq!(sched.in_flight_count(), 1);
}

#[test]
fn discovery_in_the_middle_of_the_range() {
    let mut sched = Scheduler::new(0, 50, 5);
    let (recorded, widest, admitted) = run_key(&mut sched, &|id| {
        if id == 17 || id == 18 { ProbeOutcome::Found(format!("u{}", id)) } else { ProbeOutcome::Rejected(404) }
    });
    assert_eq!(recorded, vec!["u17".to_string()]);
    assert!(widest <= 5);
    assert!(admitted.len() < 50);
}
