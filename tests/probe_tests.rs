use url_prober::probe::{evaluate, is_discovery, HttpResponse, ProbeOutcome};

fn resp(status: u16, url: &str) -> Result<HttpResponse, String> {
    Ok(HttpResponse { status, final_url: url.to_string() })
}

const U: &str = "https://x.test/1-item-1";

#[test]
fn found_needs_status_200_at_the_same_url() {
    assert_eq!(evaluate(U, resp(200, U), false), ProbeOutcome::Found(U.to_string()));
}

#[test]
fn redirect_target_is_rejected() {
    assert_eq!(evaluate(U, resp(200, "https://x.test/login"), false), ProbeOutcome::Rejected(200));
    assert_eq!(evaluate(U, resp(200, "https://x.test/1-item-1/"), false), ProbeOutcome::Rejected(200));
}

#[test]
fn rate_limit_is_recognised() {
    assert_eq!(evaluate(U, resp(429, U), false), ProbeOutcome::RateLimited);
}

#[test]
fn other_statuses_are_rejected() {
    assert_eq!(evaluate(U, resp(404, U), false), ProbeOutcome::Rejected(404));
    assert_eq!(evaluate(U, resp(500, U), false), ProbeOutcome::Rejected(500));
    assert_eq!(evaluate(U, resp(301, "https://x.test/elsewhere"), false), ProbeOutcome::Rejected(301));
    assert_eq!(evaluate(U, resp(204, U), false), ProbeOutcome::Rejected(204));
}

#[test]
fn transport_error_is_transient() {
    let r = evaluate(U, Err("timed out".to_string()), false);
    assert_eq!(r, ProbeOutcome::TransientError("timed out".to_string()));
}

#[test]
fn stop_flag_discards_the_answer() {
    assert_eq!(evaluate(U, resp(200, U), true), ProbeOutcome::Cancelled);
    assert_eq!(evaluate(U, resp(429, U), true), ProbeOutcome::Cancelled);
    assert_eq!(evaluate(U, Err("x".to_string()), true), ProbeOutcome::Cancelled);
}

#[test]
fn discovery_is_found_only() {
    assert!(is_discovery(&ProbeOutcome::Found(U.to_string())));
    assert!(!is_discovery(&ProbeOutcome::Rejected(200)));
    assert!(!is_discovery(&ProbeOutcome::RateLimited));
    assert!(!is_discovery(&ProbeOutcome::Cancelled));
}
