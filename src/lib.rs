//! A bounded-concurrency URL probing engine.
//!
//! Candidate URLs are formed by substituting an inner and an outer integer
//! key into a template. Each candidate is probed (by the caller's transport),
//! the raw answer is classified, rate-limited probes are retried with a
//! linear backoff, and a per-key scheduler keeps a bounded window of probes
//! in flight until one is found. The decisions are made here as state
//! machines; the caller performs the network work and the waiting.

pub mod text;
pub mod template;
pub mod probe;
pub mod retry;
pub mod scheduler;
pub mod driver;
pub mod courtesy;
