//! The once protocol: the decisions that turn racing or reentrant first
//! accesses to a guarded object into exactly one initialization.
//!
//! Each function takes the phase that the caller observed and returns the
//! phase to store (by a compare-and-swap in a shared object, by a plain store
//! in a thread-confined one) together with what the caller must do next.
use vstd::prelude::*;
use crate::phase::{lemma_added, lemma_cleared, lemma_recorded_not_initial, Flag, Phase};

verus! {

/// What an access does when it reenters an initialization that its own
/// thread holds.
#[derive(Clone, Copy, Debug, PartialEq, Eq, Structural)]
pub enum CyclicPolicy {
    /// Go on with a placeholder and record the skip in the phase.
    Skip,
    /// Answer with a cyclic-access error.
    Report,
}

/// What an access is told to do.
#[derive(Clone, Copy, Debug, PartialEq, Eq, Structural)]
pub enum Access {
    /// The value is initialized: read it.
    Ready,
    /// The caller now holds the lock and runs the initialization.
    Proceed,
    /// Another thread initializes: block until it wakes the waiters.
    Wait,
    /// A reentrant access under the skip policy: use a placeholder.
    Skip,
    /// A reentrant access under the report policy: a cyclic-access error.
    Cyclic,
    /// The object settled without a value and no new attempt is warranted.
    Refused,
}

/// What became of the request to register the object's finalizer.
#[derive(Clone, Copy, Debug, PartialEq, Eq, Structural)]
pub enum Registration {
    /// No finalizer was asked for.
    NotRequested,
    /// The backend accepted the finalizer.
    Registered,
    /// The backend refused it.
    Refused,
    /// The registration panicked.
    Panicked,
}

/// The phase stored and the answer given to one access.
///
/// `proceed` is the caller's verdict on the observed phase (whether a new
/// attempt is warranted); `reentrant` says whether the caller's own thread
/// holds the lock; `finalize` whether a finalizer will be registered.
pub open spec fn access_next(
    p: Phase,
    proceed: bool,
    reentrant: bool,
    policy: CyclicPolicy,
    finalize: bool,
) -> (Phase, Access) {
    if p.has(Flag::Locked) {
        if reentrant {
            match policy {
                CyclicPolicy::Skip => (p.added(Flag::InitializationSkipped), Access::Skip),
                CyclicPolicy::Report => (p, Access::Cyclic),
            }
        } else {
            (p.added(Flag::Parked), Access::Wait)
        }
    } else if p.has(Flag::Initialized) {
        (p, Access::Ready)
    } else if proceed {
        if finalize {
            (p.added(Flag::Locked).added(Flag::Registrating), Access::Proceed)
        } else {
            (p.added(Flag::Locked).added(Flag::Initializing), Access::Proceed)
        }
    } else {
        (p, Access::Refused)
    }
}

/// The phase with the lock released and the waiters' mark cleared.
pub open spec fn unlocked(p: Phase) -> Phase {
    p.cleared(Flag::Locked).cleared(Flag::Parked)
}

/// The phase after the lock holder learnt what became of the registration,
/// and whether it now runs the generator.
pub open spec fn registration_next(p: Phase, reg: Registration, init_on_reg_failure: bool) -> (
    Phase,
    bool,
) {
    let q = p.cleared(Flag::Registrating);
    match reg {
        Registration::NotRequested => (q.added(Flag::Initializing), true),
        Registration::Registered => (q.added(Flag::Registered).added(Flag::Initializing), true),
        Registration::Refused => if init_on_reg_failure {
            (q.added(Flag::RegistrationRefused).added(Flag::Initializing), true)
        } else {
            (unlocked(q.added(Flag::RegistrationRefused)), false)
        },
        Registration::Panicked => (unlocked(q.added(Flag::RegistrationPanicked)), false),
    }
}

/// The phase after the generator returned or panicked.
pub open spec fn release_next(p: Phase, panicked: bool) -> Phase {
    let q = unlocked(p.cleared(Flag::Initializing));
    if panicked {
        q.added(Flag::InitializationPanicked)
    } else {
        q.added(Flag::Initialized)
    }
}

/// Decides one access to a guarded object.
pub fn access(p: Phase, proceed: bool, reentrant: bool, policy: CyclicPolicy, finalize: bool) -> (r: (
    Phase,
    Access,
))
    ensures
        r == access_next(p, proceed, reentrant, policy, finalize),
{
    if p.locked() {
        if reentrant {
            match policy {
                CyclicPolicy::Skip => (p.with(Flag::InitializationSkipped), Access::Skip),
                CyclicPolicy::Report => (p, Access::Cyclic),
            }
        } else {
            (p.with(Flag::Parked), Access::Wait)
        }
    } else if p.initialized() {
        (p, Access::Ready)
    } else if proceed {
        if finalize {
            (p.with(Flag::Locked).with(Flag::Registrating), Access::Proceed)
        } else {
            (p.with(Flag::Locked).with(Flag::Initializing), Access::Proceed)
        }
    } else {
        (p, Access::Refused)
    }
}

/// Decides what the lock holder does once the finalizer's registration is
/// settled: the new phase, and whether the generator runs.
pub fn after_registration(p: Phase, reg: Registration, init_on_reg_failure: bool) -> (r: (
    Phase,
    bool,
))
    ensures
        r == registration_next(p, reg, init_on_reg_failure),
{
    let q = p.without(Flag::Registrating);
    match reg {
        Registration::NotRequested => (q.with(Flag::Initializing), true),
        Registration::Registered => (q.with(Flag::Registered).with(Flag::Initializing), true),
        Registration::Refused => {
            if init_on_reg_failure {
                (q.with(Flag::RegistrationRefused).with(Flag::Initializing), true)
            } else {
                (
                    q.with(Flag::RegistrationRefused).without(Flag::Locked).without(Flag::Parked),
                    false,
                )
            }
        },
        Registration::Panicked => (
            q.with(Flag::RegistrationPanicked).without(Flag::Locked).without(Flag::Parked),
            false,
        ),
    }
}

/// The phase that the lock holder stores once the generator returned
/// (`panicked` false) or panicked. Waiters must be woken where the phase it
/// replaces records parked threads.
pub fn release(p: Phase, panicked: bool) -> (r: Phase)
    ensures
        r == release_next(p, panicked),
        r.has(Flag::Initialized) == (p.has(Flag::Initialized) || !panicked),
        !r.has(Flag::Locked),
        !r.has(Flag::Parked),
{
    let q = p.without(Flag::Initializing).without(Flag::Locked).without(Flag::Parked);
    proof {
        lemma_cleared(p, Flag::Initializing);
        lemma_cleared(p.cleared(Flag::Initializing), Flag::Locked);
        lemma_cleared(p.cleared(Flag::Initializing).cleared(Flag::Locked), Flag::Parked);
        lemma_added(q, Flag::InitializationPanicked);
        lemma_added(q, Flag::Initialized);
    }
    if panicked {
        q.with(Flag::InitializationPanicked)
    } else {
        q.with(Flag::Initialized)
    }
}

/// One step that a guarded object's phase may take: an access by some
/// thread, or a step of the lock holder.
#[derive(Clone, Copy, Debug, PartialEq, Eq, Structural)]
pub enum Event {
    Access { reentrant: bool, policy: CyclicPolicy, finalize: bool },
    Registration { outcome: Registration, init_on_reg_failure: bool },
    Release { panicked: bool },
}

/// The phase after one step, and whether that step granted the lock, under
/// the first-access rule: a new attempt is warranted from the initial phase
/// only.
pub open spec fn step(p: Phase, e: Event) -> (Phase, bool) {
    match e {
        Event::Access { reentrant, policy, finalize } => {
            let r = access_next(p, p.0 == 0, reentrant, policy, finalize);
            (r.0, r.1 == Access::Proceed)
        },
        Event::Registration { outcome, init_on_reg_failure } => (
            registration_next(p, outcome, init_on_reg_failure).0,
            false,
        ),
        Event::Release { panicked } => (release_next(p, panicked), false),
    }
}

/// How many times a waiter spins before it blocks.
pub const SPIN_LIMIT: u32 = 32;

/// What a thread told to wait does next.
#[derive(Clone, Copy, Debug, PartialEq, Eq, Structural)]
pub enum Backoff {
    /// Spin once more, then look at the phase again.
    Spin,
    /// Block until the lock holder wakes the waiters.
    Park,
}

/// The waiting rule: a short busy wait, then a descheduling one.
pub fn backoff(spins: u32) -> (r: Backoff)
    ensures
        r == (if spins < SPIN_LIMIT {
            Backoff::Spin
        } else {
            Backoff::Park
        }),
{
    if spins < SPIN_LIMIT {
        Backoff::Spin
    } else {
        Backoff::Park
    }
}

/// The phase after a sequence of steps.
pub open spec fn run(p: Phase, events: Seq<Event>) -> Phase
    decreases events.len(),
{
    if events.len() == 0 {
        p
    } else {
        run(step(p, events[0]).0, events.drop_first())
    }
}

/// How many steps of a sequence granted the lock, that is, started the
/// generator.
pub open spec fn grants(p: Phase, events: Seq<Event>) -> nat
    decreases events.len(),
{
    if events.len() == 0 {
        0
    } else {
        (if step(p, events[0]).1 {
            1nat
        } else {
            0nat
        }) + grants(step(p, events[0]).0, events.drop_first())
    }
}

/// No step returns to the initial phase, and only a step from the initial
/// phase grants the lock.
proof fn lemma_step_leaves_initial(p: Phase, e: Event)
    ensures
        step(p, e).0.0 != 0,
        step(p, e).1 ==> p.0 == 0,
{
    broadcast use {lemma_added, lemma_cleared};

    let q = step(p, e).0;
    match e {
        Event::Access { reentrant, policy, finalize } => {
            if p.0 == 0 {
                assert forall|f: Flag| !p.has(f) by {
                    let m = f.mask();
                    assert(0u32 & m == 0) by (bit_vector);
                }
            } else {
                assert(q == p || q.has(Flag::Parked) || q.has(Flag::InitializationSkipped));
                if q != p {
                    if q.has(Flag::Parked) {
                        lemma_recorded_not_initial(q, Flag::Parked);
                    } else {
                        lemma_recorded_not_initial(q, Flag::InitializationSkipped);
                    }
                }
            }
            if p.0 == 0 {
                assert(q.has(Flag::Locked));
                lemma_recorded_not_initial(q, Flag::Locked);
            }
        },
        Event::Registration { outcome, init_on_reg_failure } => {
            match outcome {
                Registration::NotRequested => lemma_recorded_not_initial(q, Flag::Initializing),
                Registration::Registered => lemma_recorded_not_initial(q, Flag::Registered),
                Registration::Refused => lemma_recorded_not_initial(
                    q,
                    Flag::RegistrationRefused,
                ),
                Registration::Panicked => lemma_recorded_not_initial(
                    q,
                    Flag::RegistrationPanicked,
                ),
            }
        },
        Event::Release { panicked } => {
            if panicked {
                lemma_recorded_not_initial(q, Flag::InitializationPanicked);
            } else {
                lemma_recorded_not_initial(q, Flag::Initialized);
            }
        },
    }
}

proof fn lemma_no_grant_after_start(p: Phase, events: Seq<Event>)
    requires
        p.0 != 0,
    ensures
        grants(p, events) == 0,
    decreases events.len(),
{
    if events.len() > 0 {
        lemma_step_leaves_initial(p, events[0]);
        lemma_no_grant_after_start(step(p, events[0]).0, events.drop_first());
    }
}

/// However accesses of any number of threads interleave with the lock
/// holder's steps, from the initial phase the generator is started at most
/// once, and exactly once where an access comes first.
pub proof fn lemma_single_initialization(events: Seq<Event>)
    ensures
        grants(Phase(0), events) <= 1,
        events.len() > 0 && events[0] is Access ==> grants(Phase(0), events) == 1,
{
    if events.len() > 0 {
        let p = Phase(0);
        lemma_step_leaves_initial(p, events[0]);
        lemma_no_grant_after_start(step(p, events[0]).0, events.drop_first());
        if events[0] is Access {
            assert forall|f: Flag| !p.has(f) by {
                let m = f.mask();
                assert(0u32 & m == 0) by (bit_vector);
            }
        }
    }
}

/// An object that is initialized and unlocked stays so whatever steps
/// follow, and every access to it is told to read the value that is there.
pub proof fn lemma_initialized_is_final(p: Phase, events: Seq<Event>)
    requires
        p.has(Flag::Initialized),
        !p.has(Flag::Locked),
    ensures
        run(p, events).has(Flag::Initialized),
        !run(p, events).has(Flag::Locked),
        forall|proceed: bool, reentrant: bool, policy: CyclicPolicy, finalize: bool|
            #[trigger] access_next(run(p, events), proceed, reentrant, policy, finalize) == (
                run(p, events),
                Access::Ready,
            ),
    decreases events.len(),
{
    broadcast use {lemma_added, lemma_cleared};

    if events.len() > 0 {
        let q = step(p, events[0]).0;
        assert(q.has(Flag::Initialized) && !q.has(Flag::Locked));
        lemma_initialized_is_final(q, events.drop_first());
    }
}

/// A generator that returned leaves the object initialized and unlocked.
pub proof fn lemma_release_settles(p: Phase)
    ensures
        release_next(p, false).has(Flag::Initialized),
        !release_next(p, false).has(Flag::Locked),
{
    broadcast use {lemma_added, lemma_cleared};

}

/// An access that reenters its own thread's initialization never waits:
/// under the skip policy it gets a placeholder, under the report policy the
/// cyclic error, and the lock stays with the holder.
pub proof fn lemma_cyclic_access_resolves(p: Phase, proceed: bool, finalize: bool)
    requires
        p.has(Flag::Locked),
    ensures
        access_next(p, proceed, true, CyclicPolicy::Skip, finalize).1 == Access::Skip,
        access_next(p, proceed, true, CyclicPolicy::Skip, finalize).0.has(Flag::Locked),
        access_next(p, proceed, true, CyclicPolicy::Report, finalize) == (p, Access::Cyclic),
{
    broadcast use lemma_added;

}

} // verus!
