use vstd::prelude::*;
use crate::probe::ProbeOutcome;

verus! {

#[derive(Clone, Copy, Debug, PartialEq, Eq, Structural)]
pub enum SchedPhase {
    /// Inner ids are being admitted in increasing order.
    Filling,
    /// No more admissions; the probes in flight are awaited.
    Draining,
    /// The outer key is settled; any outcome still coming is discarded.
    Done,
}

/// What the caller does next for the outer key.
#[derive(Clone, Copy, Debug, PartialEq, Eq, Structural)]
pub enum SchedAction {
    /// Start probing this inner id.
    Admit(u32),
    /// Wait until one probe in flight completes and report it.
    Await,
    /// The outer key is settled.
    Finish,
}

/// The state of a scheduler for one outer key.
pub struct SchedModel {
    pub start: nat,
    pub next: nat,
    pub end: nat,
    pub ceiling: nat,
    pub in_flight: Seq<u32>,
    pub phase: SchedPhase,
    pub found: Option<Seq<char>>,
}

impl SchedModel {
    pub open spec fn wf(self) -> bool {
        &&& self.ceiling >= 1
        &&& self.start <= u32::MAX
        &&& self.end <= u32::MAX
        &&& self.start <= self.next
        &&& (self.next <= self.end || self.next == self.start)
        &&& self.in_flight.len() <= self.ceiling
        &&& self.in_flight.no_duplicates()
        &&& forall|k: int| 0 <= k < self.in_flight.len() ==> self.start <= #[trigger] self.in_flight[k] < self.next
        &&& self.found is Some ==> self.phase == SchedPhase::Done
        &&& self.phase == SchedPhase::Done && self.in_flight.len() > 0 ==> self.found is Some
    }

    /// Probes issued so far.
    pub open spec fn issued(self) -> nat {
        (self.next - self.start) as nat
    }

    pub open spec fn with_phase(self, p: SchedPhase) -> SchedModel {
        SchedModel { phase: p, ..self }
    }
}

pub open spec fn initial_model(start: nat, end: nat, ceiling: nat) -> SchedModel {
    SchedModel {
        start,
        next: start,
        end,
        ceiling,
        in_flight: seq![],
        phase: SchedPhase::Filling,
        found: None,
    }
}

/// The next decision, with `cancelled` the stop flag as read now.
pub open spec fn next_model(m: SchedModel, cancelled: bool) -> (SchedModel, SchedAction) {
    match m.phase {
        SchedPhase::Done => (m, SchedAction::Finish),
        SchedPhase::Draining => {
            if m.in_flight.len() == 0 {
                (m.with_phase(SchedPhase::Done), SchedAction::Finish)
            } else {
                (m, SchedAction::Await)
            }
        },
        SchedPhase::Filling => {
            if cancelled || m.next >= m.end {
                if m.in_flight.len() == 0 {
                    (m.with_phase(SchedPhase::Done), SchedAction::Finish)
                } else {
                    (m.with_phase(SchedPhase::Draining), SchedAction::Await)
                }
            } else if m.in_flight.len() >= m.ceiling {
                (m, SchedAction::Await)
            } else {
                (
                    SchedModel { next: m.next + 1, in_flight: m.in_flight.push(m.next as u32), ..m },
                    SchedAction::Admit(m.next as u32),
                )
            }
        },
    }
}

/// The state after the probe of `inner` completed with `o`, and the URL to
/// record, if any: the first Found outcome settles the key, later ones and
/// those after settling are discarded.
pub open spec fn complete_model(m: SchedModel, inner: u32, o: ProbeOutcome) -> (SchedModel, Option<Seq<char>>) {
    let rest = m.in_flight.remove(m.in_flight.index_of(inner));
    if m.phase != SchedPhase::Done && o is Found {
        (
            SchedModel { in_flight: rest, phase: SchedPhase::Done, found: Some(o->Found_0@), ..m },
            Some(o->Found_0@),
        )
    } else {
        (SchedModel { in_flight: rest, ..m }, None)
    }
}

/// The bounded-window scheduler of the probes of one outer key.
pub struct Scheduler {
    start: u32,
    next: u32,
    end: u32,
    ceiling: usize,
    in_flight: Vec<u32>,
    phase: SchedPhase,
    found: Option<String>,
}

pub open spec fn found_view(f: Option<String>) -> Option<Seq<char>> {
    match f {
        Some(s) => Some(s@),
        None => None,
    }
}

impl View for Scheduler {
    type V = SchedModel;

    closed spec fn view(&self) -> SchedModel {
        SchedModel {
            start: self.start as nat,
            next: self.next as nat,
            end: self.end as nat,
            ceiling: self.ceiling as nat,
            in_flight: self.in_flight@,
            phase: self.phase,
            found: found_view(self.found),
        }
    }
}

impl Scheduler {
    /// A scheduler for inner ids in `[inner_start, inner_end)` with at most
    /// `ceiling` probes in flight.
    pub fn new(inner_start: u32, inner_end: u32, ceiling: usize) -> (r: Scheduler)
        requires
            ceiling >= 1,
        ensures
            r@ == initial_model(inner_start as nat, inner_end as nat, ceiling as nat),
            r@.wf(),
    {
        Scheduler {
            start: inner_start,
            next: inner_start,
            end: inner_end,
            ceiling,
            in_flight: Vec::new(),
            phase: SchedPhase::Filling,
            found: None,
        }
    }

    /// Decides the next step; `cancelled` is the stop flag as read now.
    pub fn next_action(&mut self, cancelled: bool) -> (r: SchedAction)
        requires
            old(self)@.wf(),
        ensures
            (final(self)@, r) == next_model(old(self)@, cancelled),
            final(self)@.wf(),
    {
        proof { lemma_step_keeps_wf(self@, cancelled); }
        match self.phase {
            SchedPhase::Done => SchedAction::Finish,
            SchedPhase::Draining => {
                if self.in_flight.len() == 0 {
                    self.phase = SchedPhase::Done;
                    SchedAction::Finish
                } else {
                    SchedAction::Await
                }
            },
            SchedPhase::Filling => {
                if cancelled || self.next >= self.end {
                    if self.in_flight.len() == 0 {
                        self.phase = SchedPhase::Done;
                        SchedAction::Finish
                    } else {
                        self.phase = SchedPhase::Draining;
                        SchedAction::Await
                    }
                } else if self.in_flight.len() >= self.ceiling {
                    SchedAction::Await
                } else {
                    let id = self.next;
                    self.in_flight.push(id);
                    self.next = self.next + 1;
                    SchedAction::Admit(id)
                }
            },
        }
    }

    /// Reports that the probe of `inner` completed with `o`; returns the URL
    /// to record when this settles the outer key with a discovery.
    pub fn on_completed(&mut self, inner: u32, o: ProbeOutcome) -> (r: Option<String>)
        requires
            old(self)@.wf(),
            old(self)@.in_flight.contains(inner),
        ensures
            final(self)@ == complete_model(old(self)@, inner, o).0,
            found_view(r) == complete_model(old(self)@, inner, o).1,
            final(self)@.wf(),
    {
        let ghost m = self@;
        proof { lemma_complete_keeps_wf(m, inner, o); }
        let n = self.in_flight.len();
        let mut k: usize = 0;
        while k < n && self.in_flight[k] != inner
            invariant
                n == self.in_flight@.len(),
                self@ == m,
                k <= n,
                forall|j: int| 0 <= j < k ==> self.in_flight@[j] != inner,
            decreases n - k,
        {
            k = k + 1;
        }
        assert(k < n);
        assert(k as int == m.in_flight.index_of(inner)) by {
            let c = m.in_flight.index_of(inner);
            assert(0 <= c < m.in_flight.len() && m.in_flight[c] == inner);
        }
        self.in_flight.remove(k);
        assert(self.in_flight@ =~= m.in_flight.remove(k as int));
        if self.phase != SchedPhase::Done {
            match o {
                ProbeOutcome::Found(url) => {
                    self.phase = SchedPhase::Done;
                    let copy = url.clone();
                    self.found = Some(url);
                    return Some(copy);
                },
                _ => {},
            }
        }
        None
    }

    pub fn phase(&self) -> (r: SchedPhase)
        ensures
            r == self@.phase,
    {
        self.phase
    }

    /// Probes admitted and not yet reported.
    pub fn in_flight_count(&self) -> (r: usize)
        ensures
            r == self@.in_flight.len(),
    {
        self.in_flight.len()
    }

    /// Probes issued so far.
    pub fn issued(&self) -> (r: u32)
        requires
            self@.wf(),
        ensures
            r == self@.issued(),
    {
        self.next - self.start
    }

    /// The discovery that settled the key, if any.
    pub fn discovery(&self) -> (r: Option<String>)
        ensures
            found_view(r) == self@.found,
    {
        match &self.found {
            Some(s) => Some(s.clone()),
            None => None,
        }
    }
}

/// Every decision keeps the scheduler well formed; in particular the
/// number of probes in flight never exceeds the ceiling.
pub proof fn lemma_step_keeps_wf(m: SchedModel, cancelled: bool)
    requires
        m.wf(),
    ensures
        next_model(m, cancelled).0.wf(),
        next_model(m, cancelled).0.in_flight.len() <= m.ceiling,
        next_model(m, cancelled).0.ceiling == m.ceiling,
{
    let m2 = next_model(m, cancelled).0;
    if m.phase == SchedPhase::Filling && !cancelled && m.next < m.end && m.in_flight.len() < m.ceiling {
        assert forall|k: int| 0 <= k < m2.in_flight.len() implies m2.start <= #[trigger] m2.in_flight[k] < m2.next by {
            if k < m.in_flight.len() {
                assert(m2.in_flight[k] == m.in_flight[k]);
            } else {
                assert(m2.in_flight[k] == m.next as u32);
            }
        }
        assert(m2.in_flight.no_duplicates()) by {
            assert forall|i: int, j: int| 0 <= i < m2.in_flight.len() && 0 <= j < m2.in_flight.len() && i != j
                implies m2.in_flight[i] != m2.in_flight[j] by {
                if i < m.in_flight.len() {
                    assert(m2.in_flight[i] == m.in_flight[i]);
                } else {
                    assert(m2.in_flight[i] == m.next as u32);
                }
                if j < m.in_flight.len() {
                    assert(m2.in_flight[j] == m.in_flight[j]);
                } else {
                    assert(m2.in_flight[j] == m.next as u32);
                }
            }
        }
    }
}

/// Every completion keeps the scheduler well formed.
pub proof fn lemma_complete_keeps_wf(m: SchedModel, inner: u32, o: ProbeOutcome)
    requires
        m.wf(),
        m.in_flight.contains(inner),
    ensures
        complete_model(m, inner, o).0.wf(),
        complete_model(m, inner, o).0.in_flight.len() == m.in_flight.len() - 1,
{
    let c = m.in_flight.index_of(inner);
    let rest = m.in_flight.remove(c);
    m.in_flight.remove_ensures(c);
    assert forall|k: int| 0 <= k < rest.len() implies m.start <= #[trigger] rest[k] < m.next by {
        if k < c {
            assert(rest[k] == m.in_flight[k]);
        } else {
            assert(rest[k] == m.in_flight[k + 1]);
        }
    }
    assert(rest.no_duplicates()) by {
        assert forall|i: int, j: int| 0 <= i < rest.len() && 0 <= j < rest.len() && i != j
            implies rest[i] != rest[j] by {
            let i2 = if i < c { i } else { i + 1 };
            let j2 = if j < c { j } else { j + 1 };
            assert(rest[i] == m.in_flight[i2]);
            assert(rest[j] == m.in_flight[j2]);
        }
    }
}

/// One input to a scheduler: a decision asked for with the stop flag as
/// read then, or a completion of the probe of an inner id.
pub enum SchedEvent {
    Step(bool),
    Completed(u32, ProbeOutcome),
}

/// The state after `events`, the number of discoveries recorded on the
/// way, and the number of probes admitted. A completion of an id that is
/// not in flight is ignored.
pub open spec fn run(m: SchedModel, events: Seq<SchedEvent>) -> (SchedModel, nat, nat)
    decreases events.len(),
{
    if events.len() == 0 {
        (m, 0, 0)
    } else {
        let (m1, rec, adm) = match events[0] {
            SchedEvent::Step(c) => {
                let (m1, a) = next_model(m, c);
                (m1, 0nat, if a is Admit { 1nat } else { 0nat })
            },
            SchedEvent::Completed(i, o) => {
                if m.in_flight.contains(i) {
                    let (m1, r) = complete_model(m, i, o);
                    (m1, if r is Some { 1nat } else { 0nat }, 0nat)
                } else {
                    (m, 0nat, 0nat)
                }
            },
        };
        let (mf, rec2, adm2) = run(m1, events.subrange(1, events.len() as int));
        (mf, rec + rec2, adm + adm2)
    }
}

pub open spec fn found_count(m: SchedModel) -> nat {
    if m.found is Some { 1 } else { 0 }
}

/// Whatever happens to the scheduler of one outer key, at most one
/// discovery is recorded for it, and one is recorded exactly when the key
/// ends up settled by a Found outcome, however many probes were in flight.
pub proof fn lemma_at_most_one_discovery(m: SchedModel, events: Seq<SchedEvent>)
    requires
        m.wf(),
    ensures
        found_count(m) + run(m, events).1 == found_count(run(m, events).0),
        run(m, events).1 <= 1,
        run(m, events).0.wf(),
    decreases events.len(),
{
    if events.len() > 0 {
        let m1 = match events[0] {
            SchedEvent::Step(c) => {
                lemma_step_keeps_wf(m, c);
                next_model(m, c).0
            },
            SchedEvent::Completed(i, o) => {
                if m.in_flight.contains(i) {
                    lemma_complete_keeps_wf(m, i, o);
                    complete_model(m, i, o).0
                } else {
                    m
                }
            },
        };
        lemma_at_most_one_discovery(m1, events.subrange(1, events.len() as int));
    }
}

/// Once every decision is asked for with the stop flag set, no probe is
/// admitted any more, whatever the state and the completions in between.
pub proof fn lemma_cancelled_admits_nothing(m: SchedModel, events: Seq<SchedEvent>)
    requires
        m.wf(),
        forall|k: int| 0 <= k < events.len() && events[k] is Step ==> events[k]->Step_0,
    ensures
        run(m, events).2 == 0,
        run(m, events).0.issued() == m.issued(),
    decreases events.len(),
{
    if events.len() > 0 {
        let rest = events.subrange(1, events.len() as int);
        assert forall|k: int| 0 <= k < rest.len() && rest[k] is Step implies rest[k]->Step_0 by {
            assert(rest[k] == events[k + 1]);
        }
        let m1 = match events[0] {
            SchedEvent::Step(c) => {
                lemma_step_keeps_wf(m, c);
                next_model(m, c).0
            },
            SchedEvent::Completed(i, o) => {
                if m.in_flight.contains(i) {
                    lemma_complete_keeps_wf(m, i, o);
                    complete_model(m, i, o).0
                } else {
                    m
                }
            },
        };
        lemma_cancelled_admits_nothing(m1, rest);
    }
}

/// The scheduler never settles while probes are in flight, unless one of
/// them was found: probes admitted before a stop are still awaited.
pub proof fn lemma_finish_awaits_in_flight(m: SchedModel, cancelled: bool)
    requires
        m.wf(),
        next_model(m, cancelled).1 == SchedAction::Finish,
    ensures
        m.in_flight.len() == 0 || m.found is Some,
{
}

/// A scheduler that is stopped before its first decision settles at once,
/// without admitting a probe.
pub proof fn lemma_cancelled_at_start(start: nat, end: nat, ceiling: nat)
    requires
        ceiling >= 1,
        start <= u32::MAX,
        end <= u32::MAX,
    ensures
        next_model(initial_model(start, end, ceiling), true).1 == SchedAction::Finish,
        next_model(initial_model(start, end, ceiling), true).0.phase == SchedPhase::Done,
        next_model(initial_model(start, end, ceiling), true).0.issued() == 0,
{
}

} // verus!
