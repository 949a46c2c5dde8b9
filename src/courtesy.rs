use vstd::prelude::*;
use rand::Rng;
use crate::template::{CandidateKey, UrlTemplate};

verus! {

/// Shortest pause before a candidate's first request, in milliseconds.
pub const JITTER_MIN_MS: u64 = 100;

/// Bound (exclusive) of that pause.
pub const JITTER_MAX_MS: u64 = 500;

/// Identity headers to choose from.
pub const AGENT_COUNT: usize = 4;

/// Relies on rand's `thread_rng().gen_range(lo..hi)`: a value drawn from
/// `lo..hi`, which must not be empty.
#[verifier::external_body]
fn random_below(lo: u64, hi: u64) -> (r: u64)
    requires
        lo < hi,
    ensures
        lo <= r < hi,
{
    rand::thread_rng().gen_range(lo..hi)
}

/// The identity header of index `i` of the pool.
pub fn user_agent(i: usize) -> (r: &'static str)
    requires
        i < AGENT_COUNT,
    ensures
        i == 0 ==> r@ == "Mozilla/5.0 (Windows NT 10.0; Win64; x64)"@,
        i == 1 ==> r@ == "Mozilla/5.0 (Macintosh; Intel Mac OS X 10_15_7)"@,
        i == 2 ==> r@ == "Mozilla/5.0 (X11; Ubuntu; Linux x86_64)"@,
        i == 3 ==> r@ == "Mozilla/5.0 (iPhone; CPU iPhone OS 14_0 like Mac OS X)"@,
{
    if i == 0 {
        "Mozilla/5.0 (Windows NT 10.0; Win64; x64)"
    } else if i == 1 {
        "Mozilla/5.0 (Macintosh; Intel Mac OS X 10_15_7)"
    } else if i == 2 {
        "Mozilla/5.0 (X11; Ubuntu; Linux x86_64)"
    } else {
        "Mozilla/5.0 (iPhone; CPU iPhone OS 14_0 like Mac OS X)"
    }
}

/// Everything needed to probe one candidate.
pub struct ProbePlan {
    pub url: String,
    /// Pause before the first request, in milliseconds.
    pub jitter_ms: u64,
    /// Index of the identity header in the pool.
    pub agent: usize,
}

/// The plan for `key` with the given pause and identity header.
pub fn plan_with(tpl: &UrlTemplate, key: CandidateKey, jitter_ms: u64, agent: usize) -> (r: ProbePlan)
    ensures
        r.url@ == tpl.url_of(key),
        r.jitter_ms == jitter_ms,
        r.agent == agent,
{
    ProbePlan { url: tpl.substitute(key), jitter_ms, agent }
}

/// The plan for `key`, with a random pause in `JITTER_MIN_MS..JITTER_MAX_MS`
/// and a random identity header.
pub fn plan_probe(tpl: &UrlTemplate, key: CandidateKey) -> (r: ProbePlan)
    ensures
        r.url@ == tpl.url_of(key),
        JITTER_MIN_MS <= r.jitter_ms < JITTER_MAX_MS,
        r.agent < AGENT_COUNT,
{
    let jitter_ms = random_below(JITTER_MIN_MS, JITTER_MAX_MS);
    let agent = random_below(0, AGENT_COUNT as u64) as usize;
    plan_with(tpl, key, jitter_ms, agent)
}

} // verus!
