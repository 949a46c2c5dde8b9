use vstd::prelude::*;

verus! {

/// First inner id of every outer key.
pub const INNER_START: u32 = 10_000;

/// End (exclusive) of the inner ids of every outer key.
pub const INNER_END: u32 = 80_000;

/// Last outer key (inclusive).
pub const OUTER_END: u32 = 300;

/// Outer key to start from when none (or no usable one) is given.
pub const DEFAULT_START_OUTER: u32 = 1;

/// Probes in flight at most, per outer key.
pub const MAX_CONCURRENCY: usize = 5;

/// Seconds that one request may take.
pub const REQUEST_TIMEOUT_SECS: u64 = 5;

/// Iterates the outer keys from a start to an inclusive end, one at a
/// time, until they run out or the stop flag is seen.
pub struct OuterDriver {
    next: u64,
    end: u32,
    stopped: bool,
}

impl OuterDriver {
    pub closed spec fn next_spec(&self) -> nat {
        self.next as nat
    }

    pub closed spec fn end_spec(&self) -> nat {
        self.end as nat
    }

    pub closed spec fn stopped(&self) -> bool {
        self.stopped
    }

    pub open spec fn wf(&self) -> bool {
        self.next_spec() <= u32::MAX + 1
    }

    /// Keys `start..=end`; `start` must be positive.
    pub fn new(start: u32, end: u32) -> (r: OuterDriver)
        requires
            start > 0,
        ensures
            r.wf(),
            r.next_spec() == start,
            r.end_spec() == end,
            !r.stopped(),
    {
        OuterDriver { next: start as u64, end, stopped: false }
    }

    /// The next outer key to scan, or `None` once the keys ran out or the
    /// stop flag (`cancelled`, as read now) is set; after `None` it stays
    /// `None`.
    pub fn next_key(&mut self, cancelled: bool) -> (r: Option<u32>)
        requires
            old(self).wf(),
        ensures
            final(self).wf(),
            final(self).end_spec() == old(self).end_spec(),
            (old(self).stopped() || cancelled || old(self).next_spec() > old(self).end_spec()) ==> {
                &&& r is None
                &&& final(self).stopped()
            },
            !(old(self).stopped() || cancelled || old(self).next_spec() > old(self).end_spec()) ==> {
                &&& r == Some(old(self).next_spec() as u32)
                &&& final(self).next_spec() == old(self).next_spec() + 1
                &&& !final(self).stopped()
            },
    {
        if self.stopped || cancelled || self.next > self.end as u64 {
            self.stopped = true;
            None
        } else {
            let k = self.next as u32;
            self.next = self.next + 1;
            Some(k)
        }
    }
}

/// The value of a run of decimal digits.
pub open spec fn digits_value(s: Seq<char>) -> nat
    decreases s.len(),
{
    if s.len() == 0 {
        0
    } else {
        digits_value(s.drop_last()) * 10 + ((s.last() as u32) - ('0' as u32)) as nat
    }
}

pub open spec fn is_digit_char(c: char) -> bool {
    '0' <= c && c <= '9'
}

/// The digits of a number in text: an optional leading `+`, then digits.
pub open spec fn unsigned_digits(s: Seq<char>) -> Seq<char> {
    if s.len() > 0 && s[0] == '+' { s.subrange(1, s.len() as int) } else { s }
}

/// The number that `s` writes as an unsigned 32-bit integer, if any:
/// an optional `+` and at least one decimal digit, with a value that fits.
pub open spec fn parse_u32_spec(s: Seq<char>) -> Option<nat> {
    let d = unsigned_digits(s);
    if d.len() > 0 && (forall|k: int| 0 <= k < d.len() ==> is_digit_char(#[trigger] d[k]))
        && digits_value(d) <= u32::MAX {
        Some(digits_value(d))
    } else {
        None
    }
}

/// The outer key to start from, given the optional start argument:
/// its value when it is a positive 32-bit integer, else the default.
pub open spec fn start_outer_spec(arg: Option<Seq<char>>) -> nat {
    match arg {
        Some(s) => match parse_u32_spec(s) {
            Some(v) => if v > 0 { v } else { DEFAULT_START_OUTER as nat },
            None => DEFAULT_START_OUTER as nat,
        },
        None => DEFAULT_START_OUTER as nat,
    }
}

/// Reads an unsigned 32-bit integer written in decimal.
pub fn parse_u32(s: &str) -> (r: Option<u32>)
    ensures
        match parse_u32_spec(s@) {
            Some(v) => r == Some(v as u32),
            None => r is None,
        },
{
    let n = s.unicode_len();
    let mut k: usize = 0;
    if n > 0 && s.get_char(0) == '+' {
        k = 1;
    }
    let ghost d = unsigned_digits(s@);
    let ghost off = k as int;
    assert(d =~= s@.subrange(off, n as int));
    if k >= n {
        return None;
    }
    let cap: u64 = u32::MAX as u64 + 1;
    let mut v: u64 = 0;
    while k < n
        invariant
            n == s@.len(),
            d == s@.subrange(off, n as int),
            d == unsigned_digits(s@),
            0 <= off <= k <= n,
            cap == u32::MAX + 1,
            forall|j: int| 0 <= j < k - off ==> is_digit_char(#[trigger] d[j]),
            v == if digits_value(d.subrange(0, k - off)) < cap { digits_value(d.subrange(0, k - off)) } else { cap as nat },
        decreases n - k,
    {
        let c = s.get_char(k);
        if !('0' <= c && c <= '9') {
            assert(d[k - off] == c);
            assert(!is_digit_char(d[k - off]));
            assert(parse_u32_spec(s@) is None);
            return None;
        }
        let ghost p = d.subrange(0, k - off);
        let ghost p2 = d.subrange(0, k + 1 - off);
        assert(p2.drop_last() =~= p);
        assert(p2.last() == c);
        let dig = (c as u32 - '0' as u32) as u64;
        let w = v * 10 + dig;
        proof {
            let pv = digits_value(p);
            assert(digits_value(p2) == pv * 10 + dig);
            if pv >= cap {
                assert(pv * 10 + dig >= cap) by (nonlinear_arith)
                    requires pv >= cap, dig >= 0;
                assert(w >= cap) by (nonlinear_arith)
                    requires v == cap, dig >= 0, w == v * 10 + dig;
            }
        }
        v = if w < cap { w } else { cap };
        k = k + 1;
    }
    assert(d.subrange(0, n - off) =~= d);
    if v < cap {
        Some(v as u32)
    } else {
        None
    }
}

/// The outer key to start from, given the optional start argument; an
/// unusable argument (not a number, zero, too large) gives the default.
pub fn start_outer_from_arg(arg: Option<&str>) -> (r: u32)
    ensures
        r == start_outer_spec(match arg { Some(s) => Some(s@), None => None }),
        r > 0,
{
    match arg {
        Some(s) => match parse_u32(s) {
            Some(v) => if v > 0 { v } else { DEFAULT_START_OUTER },
            None => DEFAULT_START_OUTER,
        },
        None => DEFAULT_START_OUTER,
    }
}

} // verus!
