//! Bounded admission of concurrent query-processing units.
//!
//! [`AdmissionGate`] is the one piece of mutable shared state in the server:
//! a counter of active units against a fixed capacity. A unit is admitted
//! only while admission is open and below capacity, and must give its permit
//! back exactly once, whatever way it exits. The bound itself — never more
//! than `capacity` units active at once — is both an invariant of the type
//! and a law proved over whole event histories below.

use vstd::prelude::*;

verus! {

/// One step of an [`AdmissionGate`] history: a unit asks to be admitted, an
/// admitted unit finishes, or admission closes for shutdown.
pub enum GateEvent {
    Arrive,
    Depart,
    Close,
}

/// Bounded-concurrency controller: at most `capacity` permits are ever out
/// at once, and once closed it admits nothing.
pub struct AdmissionGate {
    capacity: usize,
    active: usize,
    closed: bool,
}

/// What one event does to an [`AdmissionGate`]: an arrival takes a permit
/// when admission is open and below capacity and is dropped otherwise; a
/// departure gives one permit back; closing stops all further admission.
pub open spec fn gate_step(g: AdmissionGate, e: GateEvent) -> AdmissionGate {
    match e {
        GateEvent::Arrive => {
            if !g.is_closed() && g.active() < g.capacity() {
                AdmissionGate::model(g.capacity(), g.active() + 1, g.is_closed())
            } else {
                g
            }
        },
        GateEvent::Depart => {
            if g.active() > 0 {
                AdmissionGate::model(g.capacity(), g.active() - 1, g.is_closed())
            } else {
                g
            }
        },
        GateEvent::Close => AdmissionGate::model(g.capacity(), g.active(), true),
    }
}

/// The [`AdmissionGate`] a whole history of events leaves behind.
pub open spec fn gate_run(g: AdmissionGate, es: Seq<GateEvent>) -> AdmissionGate
    decreases es.len(),
{
    if es.len() == 0 {
        g
    } else {
        gate_step(gate_run(g, es.drop_last()), es.last())
    }
}

impl AdmissionGate {
    /// How many units may be active at once.
    pub closed spec fn capacity(self) -> int {
        self.capacity as int
    }

    /// How many admitted units have not yet departed.
    pub closed spec fn active(self) -> int {
        self.active as int
    }

    /// Whether admission was closed for shutdown.
    pub closed spec fn is_closed(self) -> bool {
        self.closed
    }

    /// The [`AdmissionGate`] with the given spec-level state.
    pub closed spec fn model(capacity: int, active: int, closed: bool) -> AdmissionGate {
        AdmissionGate { capacity: capacity as usize, active: active as usize, closed }
    }

    #[verifier::type_invariant]
    closed spec fn wf(self) -> bool {
        self.active <= self.capacity
    }

    /// A fresh, open [`AdmissionGate`] with the configured capacity and no
    /// unit active.
    pub fn new(max_concurrency: usize) -> (g: AdmissionGate)
        ensures
            g.capacity() == max_concurrency,
            g.active() == 0,
            !g.is_closed(),
    {
        AdmissionGate { capacity: max_concurrency, active: 0, closed: false }
    }

    /// Admit one unit if admission is open and capacity is left; the permit
    /// is counted until [`AdmissionGate::release`] gives it back.
    pub fn try_acquire(&mut self) -> (admitted: bool)
        ensures
            admitted == (!old(self).is_closed() && old(self).active() < old(self).capacity()),
            *final(self) == gate_step(*old(self), GateEvent::Arrive),
            admitted ==> final(self).active() == old(self).active() + 1
                && final(self).active() > 0,
            !admitted ==> final(self).active() == old(self).active(),
            0 <= final(self).active() <= final(self).capacity(),
            final(self).capacity() == old(self).capacity(),
            final(self).is_closed() == old(self).is_closed(),
        no_unwind
    {
        proof {
            use_type_invariant(&*self);
        }
        if !self.closed && self.active < self.capacity {
            self.active = self.active + 1;
            proof {
                assert(*self =~= AdmissionGate::model(old(self).capacity(), old(self).active() + 1, old(self).is_closed()));
            }
            true
        } else {
            false
        }
    }

    /// Give one permit back. Requires a permit to be out, which every
    /// admitted unit holds until it exits.
    pub fn release(&mut self)
        requires
            old(self).active() > 0,
        ensures
            *final(self) == gate_step(*old(self), GateEvent::Depart),
            final(self).active() == old(self).active() - 1,
            final(self).capacity() == old(self).capacity(),
            final(self).is_closed() == old(self).is_closed(),
        no_unwind
    {
        proof {
            use_type_invariant(&*self);
        }
        self.active = self.active - 1;
        proof {
            assert(*self =~= AdmissionGate::model(old(self).capacity(), old(self).active() - 1, old(self).is_closed()));
        }
    }

    /// Close admission: nothing is admitted from now on, while units already
    /// admitted keep their permits and finish.
    pub fn close(&mut self)
        ensures
            *final(self) == gate_step(*old(self), GateEvent::Close),
            final(self).is_closed(),
            final(self).active() == old(self).active(),
            final(self).capacity() == old(self).capacity(),
        no_unwind
    {
        proof {
            use_type_invariant(&*self);
        }
        self.closed = true;
        proof {
            assert(*self =~= AdmissionGate::model(old(self).capacity(), old(self).active(), true));
        }
    }

    /// How many units are active right now.
    pub fn active_count(&self) -> (n: usize)
        ensures
            n as int == self.active(),
    {
        proof {
            use_type_invariant(&*self);
        }
        self.active
    }
}

/// Law: under any history of arrivals, departures and closing — a burst
/// larger than the capacity included — the number of active units never
/// passes the configured capacity.
pub proof fn lemma_gate_never_exceeds_capacity(g: AdmissionGate, es: Seq<GateEvent>)
    requires
        0 <= g.active() <= g.capacity(),
    ensures
        0 <= gate_run(g, es).active() <= gate_run(g, es).capacity(),
        gate_run(g, es).capacity() == g.capacity(),
    decreases es.len(),
{
    if es.len() > 0 {
        lemma_gate_never_exceeds_capacity(g, es.drop_last());
    }
}

/// Law: one admitted unit that departs — on whichever path — leaves the
/// [`AdmissionGate`] exactly as it was: its permit is given back once, and
/// only once, per admission.
pub proof fn lemma_permit_round_trip(g: AdmissionGate)
    requires
        !g.is_closed(),
        0 <= g.active() < g.capacity(),
    ensures
        gate_step(gate_step(g, GateEvent::Arrive), GateEvent::Depart) == g,
{
    let g1 = gate_step(g, GateEvent::Arrive);
    assert(g1.active() == g.active() + 1);
    assert(gate_step(g1, GateEvent::Depart) =~= g);
}

/// Law: once admission is closed no later event admits a unit — the active
/// count never rises again — while units already admitted still depart.
pub proof fn lemma_closed_gate_admits_nothing(g: AdmissionGate, es: Seq<GateEvent>)
    requires
        g.is_closed(),
    ensures
        gate_run(g, es).is_closed(),
        gate_run(g, es).active() <= g.active(),
    decreases es.len(),
{
    if es.len() > 0 {
        lemma_closed_gate_admits_nothing(g, es.drop_last());
    }
}

} // verus!
