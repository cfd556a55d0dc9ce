//! The end of a guarded object's life: when its recoverer runs.
//!
//! The recoverer runs on the still-valid data at one terminal event: the
//! finalizer firing for an object whose finalizer was registered, or, under
//! the policy that recovers on refusal, the definitive refusal of that
//! registration. Whatever events follow, it never runs a second time.
use vstd::prelude::*;
use crate::phase::{group_phase_bits, Flag, Phase};

verus! {

/// The terminal event that may run the recoverer.
#[derive(Clone, Copy, Debug, PartialEq, Eq, Structural)]
pub enum Terminal {
    /// The registered finalizer fires at the end of its scope.
    Finalize,
    /// The registration was refused and the policy recovers the data then.
    RefusalRecovery,
}

/// The finalization of the object has begun, or is over.
pub open spec fn finalization_begun(p: Phase) -> bool {
    p.has(Flag::Finalizing) || p.has(Flag::Finalized) || p.has(Flag::FinalizationPanicked)
}

/// Whether the terminal event finds an object whose recoverer is due: an
/// initialized object whose finalization has not begun, and whose
/// registration went the way that the event stands for.
pub open spec fn recoverer_due(p: Phase, t: Terminal) -> bool {
    &&& p.has(Flag::Initialized)
    &&& !finalization_begun(p)
    &&& match t {
        Terminal::Finalize => p.has(Flag::Registered),
        Terminal::RefusalRecovery => p.has(Flag::RegistrationRefused),
    }
}

/// The phase after a terminal event, and whether the recoverer runs now.
pub open spec fn terminal_next(p: Phase, t: Terminal) -> (Phase, bool) {
    if recoverer_due(p, t) {
        (p.added(Flag::Finalizing), true)
    } else {
        (p, false)
    }
}

/// The phase once the recoverer returned or panicked.
pub open spec fn recovered_next(p: Phase, panicked: bool) -> Phase {
    let q = p.cleared(Flag::Finalizing);
    if panicked {
        q.added(Flag::FinalizationPanicked)
    } else {
        q.added(Flag::Finalized)
    }
}

/// Decides a terminal event: the new phase, and whether the recoverer runs.
pub fn terminal(p: Phase, t: Terminal) -> (r: (Phase, bool))
    ensures
        r == terminal_next(p, t),
{
    let due = p.initialized() && !p.finalizing() && !p.finalized() && !p.finalization_panic()
        && match t {
        Terminal::Finalize => p.finalize_registrated(),
        Terminal::RefusalRecovery => p.finalize_registration_refused(),
    };
    if due {
        (p.with(Flag::Finalizing), true)
    } else {
        (p, false)
    }
}

/// The phase that records that the recoverer returned (`panicked` false) or
/// panicked.
pub fn recovered(p: Phase, panicked: bool) -> (r: Phase)
    ensures
        r == recovered_next(p, panicked),
        !r.has(Flag::Finalizing),
        r.has(Flag::Finalized) == (p.has(Flag::Finalized) || !panicked),
{
    proof {
        broadcast use group_phase_bits;

    }
    let q = p.without(Flag::Finalizing);
    if panicked {
        q.with(Flag::FinalizationPanicked)
    } else {
        q.with(Flag::Finalized)
    }
}

/// One event at the end of an object's life.
#[derive(Clone, Copy, Debug, PartialEq, Eq, Structural)]
pub enum EndEvent {
    Terminal(Terminal),
    Recovered { panicked: bool },
}

/// The phase after one event, and whether the recoverer started then.
pub open spec fn end_step(p: Phase, e: EndEvent) -> (Phase, bool) {
    match e {
        EndEvent::Terminal(t) => terminal_next(p, t),
        EndEvent::Recovered { panicked } => (recovered_next(p, panicked), false),
    }
}

/// How many events of a sequence started the recoverer.
pub open spec fn recoveries(p: Phase, events: Seq<EndEvent>) -> nat
    decreases events.len(),
{
    if events.len() == 0 {
        0
    } else {
        (if end_step(p, events[0]).1 {
            1nat
        } else {
            0nat
        }) + recoveries(end_step(p, events[0]).0, events.drop_first())
    }
}

/// Once begun, finalization stays begun, and no event starts the recoverer
/// again.
proof fn lemma_begun_is_final(p: Phase, events: Seq<EndEvent>)
    requires
        finalization_begun(p),
    ensures
        recoveries(p, events) == 0,
    decreases events.len(),
{
    broadcast use group_phase_bits;

    if events.len() > 0 {
        let q = end_step(p, events[0]).0;
        assert(finalization_begun(q));
        lemma_begun_is_final(q, events.drop_first());
    }
}

/// Whatever terminal events and recoverer returns follow one another, the
/// recoverer of an object runs at most once: never for both the finalizer
/// and a refusal, never twice for either.
pub proof fn lemma_recoverer_at_most_once(p: Phase, events: Seq<EndEvent>)
    ensures
        recoveries(p, events) <= 1,
        finalization_begun(p) ==> recoveries(p, events) == 0,
    decreases events.len(),
{
    broadcast use group_phase_bits;

    if finalization_begun(p) {
        lemma_begun_is_final(p, events);
    } else if events.len() > 0 {
        let q = end_step(p, events[0]).0;
        if end_step(p, events[0]).1 {
            assert(q.has(Flag::Finalizing));
            lemma_begun_is_final(q, events.drop_first());
        } else {
            lemma_recoverer_at_most_once(q, events.drop_first());
        }
    }
}

/// An initialized object whose finalizer was registered has its recoverer
/// run when the finalizer fires, where nothing ran it before.
pub proof fn lemma_registered_object_is_recovered(p: Phase)
    requires
        p.has(Flag::Initialized),
        p.has(Flag::Registered),
        !finalization_begun(p),
    ensures
        terminal_next(p, Terminal::Finalize).1,
        terminal_next(p, Terminal::Finalize).0.has(Flag::Finalizing),
{
    broadcast use group_phase_bits;

}

} // verus!
