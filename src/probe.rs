use vstd::prelude::*;
use crate::text::same_text;

verus! {

/// The status code that signals remote rate limiting.
pub const STATUS_TOO_MANY_REQUESTS: u16 = 429;

/// The status code of a live resource.
pub const STATUS_OK: u16 = 200;

/// What the transport saw for one request, redirects not followed.
#[derive(Clone, Debug, PartialEq, Eq)]
pub struct HttpResponse {
    pub status: u16,
    /// The URL that the response was resolved at.
    pub final_url: String,
}

/// The classification of one probe attempt.
#[derive(Clone, Debug, PartialEq, Eq)]
pub enum ProbeOutcome {
    /// The requested URL answered 200 at exactly that URL.
    Found(String),
    /// Any other answer but rate limiting; the resource does not count.
    Rejected(u16),
    /// The remote side asked to slow down.
    RateLimited,
    /// The request failed in transport; the text says why.
    TransientError(String),
    /// The stop flag was seen; the answer, if any, is discarded.
    Cancelled,
}

/// Found needs both status 200 and the exact requested URL as final URL.
pub open spec fn is_found_reply(requested: Seq<char>, resp: HttpResponse) -> bool {
    resp.status == STATUS_OK && resp.final_url@ == requested
}

/// Classifies the transport's answer to a request for `requested`.
/// `cancelled` is the stop flag as read once the answer is in.
pub fn evaluate(requested: &str, reply: Result<HttpResponse, String>, cancelled: bool) -> (r: ProbeOutcome)
    ensures
        cancelled ==> r == ProbeOutcome::Cancelled,
        !cancelled && reply is Err ==> r is TransientError && r->TransientError_0@ == reply->Err_0@,
        !cancelled && reply is Ok && reply->Ok_0.status == STATUS_TOO_MANY_REQUESTS ==> r == ProbeOutcome::RateLimited,
        !cancelled && reply is Ok && is_found_reply(requested@, reply->Ok_0) ==> r is Found && r->Found_0@ == requested@,
        !cancelled && reply is Ok && reply->Ok_0.status != STATUS_TOO_MANY_REQUESTS && !is_found_reply(requested@, reply->Ok_0)
            ==> r == ProbeOutcome::Rejected(reply->Ok_0.status),
{
    if cancelled {
        return ProbeOutcome::Cancelled;
    }
    match reply {
        Err(cause) => ProbeOutcome::TransientError(cause),
        Ok(resp) => {
            if resp.status == STATUS_TOO_MANY_REQUESTS {
                ProbeOutcome::RateLimited
            } else if resp.status == STATUS_OK && same_text(resp.final_url.as_str(), requested) {
                ProbeOutcome::Found(String::from_str(requested))
            } else {
                ProbeOutcome::Rejected(resp.status)
            }
        },
    }
}

/// Whether an outcome is a confirmed discovery.
pub fn is_discovery(o: &ProbeOutcome) -> (r: bool)
    ensures
        r == o is Found,
{
    match o {
        ProbeOutcome::Found(_) => true,
        _ => false,
    }
}

/// A 200 answer resolved at another URL (a redirect target) is rejected,
/// never found.
pub proof fn lemma_redirect_never_found(requested: Seq<char>, resp: HttpResponse)
    requires
        resp.status == STATUS_OK,
        resp.final_url@ != requested,
    ensures
        !is_found_reply(requested, resp),
{
}

} // verus!
