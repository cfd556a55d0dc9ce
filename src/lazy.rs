//! A lazily initialized value owned by one thread.
use vstd::prelude::*;
use crate::finalize::{recovered, recovered_next, terminal, terminal_next, Terminal};
use crate::once::{
    access, access_next, after_registration, registration_next, release, release_next, Access,
    CyclicPolicy, Registration,
};
use crate::phase::{group_phase_bits, lemma_recorded_not_initial, Flag, Phase};
use crate::{Finaly, Generator, Phased, Sequential, Sequentializer};

verus! {

/// A value built by its generator at first access, through the once
/// protocol; it is not shared between threads, so no access can race.
pub struct UnSyncLazy<T, G> {
    value: Option<T>,
    phase: Phase,
    generator: G,
}

/// The phase that an initialization attempt from the unlocked phase `p`
/// leaves, given what became of the finalizer's registration, and whether it
/// ran the generator.
pub open spec fn attempt(p: Phase, reg: Registration, init_on_reg_failure: bool) -> (Phase, bool) {
    let locked = access_next(
        p,
        true,
        false,
        CyclicPolicy::Report,
        reg != Registration::NotRequested,
    ).0;
    let r = registration_next(locked, reg, init_on_reg_failure);
    if r.1 {
        (release_next(r.0, false), true)
    } else {
        (r.0, false)
    }
}

/// The phase that a first access leaves, and whether it ran the generator.
pub open spec fn first_access(reg: Registration, init_on_reg_failure: bool) -> (Phase, bool) {
    attempt(Phase(0), reg, init_on_reg_failure)
}

/// What a first access records: the generator ran exactly where no
/// finalizer was asked for, the registration was accepted, or it was refused
/// and initialization goes on regardless; the value is initialized exactly
/// then; the registration's outcome is recorded; and no transient bit (lock,
/// waiters, initializing, registrating) and no panic or finalization bit is
/// left.
pub proof fn lemma_first_access(reg: Registration, init_on_reg_failure: bool)
    ensures
        ({
            let (p, ran) = first_access(reg, init_on_reg_failure);
            &&& ran == (reg == Registration::NotRequested || reg == Registration::Registered || (reg
                == Registration::Refused && init_on_reg_failure))
            &&& p.has(Flag::Initialized) == ran
            &&& p.has(Flag::Registered) == (reg == Registration::Registered)
            &&& p.has(Flag::RegistrationRefused) == (reg == Registration::Refused)
            &&& p.has(Flag::RegistrationPanicked) == (reg == Registration::Panicked)
            &&& !p.has(Flag::Locked)
            &&& !p.has(Flag::Parked)
            &&& !p.has(Flag::Initializing)
            &&& !p.has(Flag::Registrating)
            &&& !p.has(Flag::InitializationPanicked)
            &&& !p.has(Flag::InitializationSkipped)
            &&& !p.has(Flag::Finalizing)
            &&& !p.has(Flag::Finalized)
            &&& !p.has(Flag::FinalizationPanicked)
        }),
{
    broadcast use group_phase_bits;

    let z = Phase(0);
    assert forall|f: Flag| !z@.contains(f) by {
        assert(!z.has(f));
    }
    assert(z@ =~= Set::<Flag>::empty());
    let finalize = reg != Registration::NotRequested;
    let locked = access_next(z, true, false, CyclicPolicy::Report, finalize).0;
    if finalize {
        assert(locked@ =~= set![Flag::Locked, Flag::Registrating]);
    } else {
        assert(locked@ =~= set![Flag::Locked, Flag::Initializing]);
    }
    let q = locked.cleared(Flag::Registrating);
    let r = registration_next(locked, reg, init_on_reg_failure);
    match reg {
        Registration::NotRequested => {
            assert(r.0@ =~= set![Flag::Locked, Flag::Initializing]);
            assert(release_next(r.0, false)@ =~= set![Flag::Initialized]);
        },
        Registration::Registered => {
            assert(r.0@ =~= set![Flag::Locked, Flag::Registered, Flag::Initializing]);
            assert(release_next(r.0, false)@ =~= set![Flag::Registered, Flag::Initialized]);
        },
        Registration::Refused => {
            if init_on_reg_failure {
                assert(r.0@ =~= set![Flag::Locked, Flag::RegistrationRefused, Flag::Initializing]);
                assert(release_next(r.0, false)@ =~= set![
                    Flag::RegistrationRefused,
                    Flag::Initialized,
                ]);
            } else {
                assert(r.0@ =~= set![Flag::RegistrationRefused]);
            }
        },
        Registration::Panicked => {
            assert(r.0@ =~= set![Flag::RegistrationPanicked]);
        },
    }
}

/// The bits that mark a step in progress, which the step clears when it
/// ends.
pub open spec fn transient(f: Flag) -> bool {
    f == Flag::Locked || f == Flag::Parked || f == Flag::Initializing || f == Flag::Registrating
        || f == Flag::Finalizing
}

/// Every other bit, once set, stays set: through an initialization attempt,
/// and through a terminal event with its recoverer's return.
pub proof fn lemma_lasting_bits_stay(
    p: Phase,
    reg: Registration,
    init_on_reg_failure: bool,
    t: Terminal,
    panicked: bool,
    f: Flag,
)
    requires
        p.has(f),
        !transient(f),
    ensures
        attempt(p, reg, init_on_reg_failure).0.has(f),
        terminal_next(p, t).0.has(f),
        recovered_next(terminal_next(p, t).0, panicked).has(f),
{
    broadcast use group_phase_bits;

}

/// The data is the value cell and the sequentializer is the phase word, so
/// the object is in the phase that its word records.
impl<T, G> Sequential for UnSyncLazy<T, G> {
    type Data = Option<T>;

    type Sequentializer = Phase;

    closed spec fn data_spec(&self) -> Option<T> {
        self.value
    }

    closed spec fn sequentializer_spec(&self) -> Phase {
        self.phase
    }

    fn sequentializer(this: &Self) -> &Phase {
        &this.phase
    }

    fn data(this: &Self) -> &Option<T> {
        &this.value
    }
}

impl<T, G: Generator<T>> UnSyncLazy<T, G> {
    pub closed spec fn value_spec(&self) -> Option<T> {
        self.value
    }

    pub closed spec fn generator_spec(&self) -> G {
        self.generator
    }

    /// The value is there exactly when the phase records it, and the phase
    /// is never left locked.
    pub closed spec fn wf(&self) -> bool {
        &&& (self.value is Some <==> self.phase.has(Flag::Initialized))
        &&& !self.phase.has(Flag::Locked)
    }

    /// What the well-formedness of the object says.
    pub proof fn lemma_wf(&self)
        requires
            self.wf(),
        ensures
            self.value_spec() is Some <==> self.phase_spec().has(Flag::Initialized),
            !self.phase_spec().has(Flag::Locked),
    {
    }

    pub fn new(generator: G) -> (r: UnSyncLazy<T, G>)
        ensures
            r.wf(),
            r.value_spec() is None,
            r.phase_spec().0 == 0,
            r.generator_spec() == generator,
    {
        let phase = Phase::new();
        UnSyncLazy { value: None, phase, generator }
    }

    /// An access under the caller's rule `shall_proceed`, which tells from
    /// the observed phase whether a new attempt is warranted (the first
    /// access rule is [Phase::initial_state]; another rule may retry after a
    /// refused registration). Where the value is there, nothing changes.
    /// Otherwise, where the rule allows it, one attempt runs as in
    /// [force_with]; where it does not, nothing changes. The result says
    /// whether the value is there.
    pub fn init<F: Fn(Phase) -> bool>(
        &mut self,
        shall_proceed: F,
        reg: Registration,
        init_on_reg_failure: bool,
    ) -> (r: bool)
        requires
            old(self).wf(),
            forall|p: Phase| shall_proceed.requires((p,)),
        ensures
            final(self).wf(),
            final(self).generator_spec() == old(self).generator_spec(),
            r == (final(self).value_spec() is Some),
            r == final(self).phase_spec().has(Flag::Initialized),
            old(self).phase_spec().has(Flag::Initialized) ==> final(self).phase_spec() == old(
                self,
            ).phase_spec() && final(self).value_spec() == old(self).value_spec(),
            !old(self).phase_spec().has(Flag::Initialized) ==> {
                ||| final(self).phase_spec() == old(self).phase_spec() && final(self).value_spec()
                    is None && shall_proceed.ensures((old(self).phase_spec(),), false)
                ||| final(self).phase_spec() == attempt(old(self).phase_spec(), reg, init_on_reg_failure).0
                    && r == attempt(old(self).phase_spec(), reg, init_on_reg_failure).1
                    && shall_proceed.ensures((old(self).phase_spec(),), true)
            },
    {
        broadcast use group_phase_bits;

        let p = self.phase;
        let proceed = shall_proceed(p);
        let finalize = match reg {
            Registration::NotRequested => false,
            _ => true,
        };
        let (q, a) = access(p, proceed, false, CyclicPolicy::Report, finalize);
        match a {
            Access::Proceed => {
                let (q2, run) = after_registration(q, reg, init_on_reg_failure);
                if run {
                    let v = self.generator.generate();
                    self.value = Some(v);
                    self.phase = release(q2, false);
                } else {
                    self.phase = q2;
                }
            },
            _ => {},
        }
        self.value.is_some()
    }

    /// The first access: takes the lock, settles the registration of the
    /// finalizer with the outcome `reg` (`NotRequested` where no finalizer
    /// is wanted), and runs the generator where the once protocol says so.
    /// Any later access changes nothing: the generator never runs again,
    /// neither after a success nor after a failed attempt.
    pub fn force_with(&mut self, reg: Registration, init_on_reg_failure: bool)
        requires
            old(self).wf(),
        ensures
            final(self).wf(),
            final(self).generator_spec() == old(self).generator_spec(),
            old(self).phase_spec().0 == 0 ==> {
                &&& final(self).phase_spec() == first_access(reg, init_on_reg_failure).0
                &&& (final(self).value_spec() is Some) == first_access(reg, init_on_reg_failure).1
            },
            old(self).phase_spec().0 != 0 ==> final(self).phase_spec() == old(self).phase_spec()
                && final(self).value_spec() == old(self).value_spec(),
            old(self).phase_spec().has(Flag::Initialized) ==> final(self).phase_spec() == old(
                self,
            ).phase_spec() && final(self).value_spec() == old(self).value_spec(),
    {
        broadcast use group_phase_bits;

        let p = self.phase;
        let proceed = p.initial_state();
        if p.0 == 0 {
            assert forall|f: Flag| !p.has(f) by {
                let m = f.mask();
                assert(0u32 & m == 0) by (bit_vector);
            }
        }
        proof {
            if p.has(Flag::Initialized) {
                lemma_recorded_not_initial(p, Flag::Initialized);
            }
        }
        let finalize = match reg {
            Registration::NotRequested => false,
            _ => true,
        };
        let (q, a) = access(p, proceed, false, CyclicPolicy::Report, finalize);
        match a {
            Access::Proceed => {
                let (q2, run) = after_registration(q, reg, init_on_reg_failure);
                if run {
                    let v = self.generator.generate();
                    self.value = Some(v);
                    self.phase = release(q2, false);
                } else {
                    self.phase = q2;
                }
            },
            _ => {},
        }
    }

    /// Builds the value if it is not there yet, with no finalizer: the
    /// generator runs only on the first call, and the value then stays as
    /// it is.
    pub fn force(&mut self)
        requires
            old(self).wf(),
        ensures
            final(self).wf(),
            final(self).generator_spec() == old(self).generator_spec(),
            old(self).phase_spec().0 == 0 ==> final(self).value_spec() is Some
                && final(self).phase_spec() == first_access(Registration::NotRequested, false).0,
            old(self).phase_spec().0 != 0 ==> final(self).phase_spec() == old(self).phase_spec()
                && final(self).value_spec() == old(self).value_spec(),
            old(self).phase_spec().has(Flag::Initialized) ==> final(self).phase_spec() == old(
                self,
            ).phase_spec() && final(self).value_spec() == old(self).value_spec(),
    {
        self.force_with(Registration::NotRequested, false);
    }

    /// Whether the value is there.
    pub fn is_initialized(&self) -> (r: bool)
        ensures
            r == (self.value_spec() is Some),
    {
        self.value.is_some()
    }

    /// The value, once it is there.
    pub fn get(&self) -> (r: &T)
        requires
            self.value_spec() is Some,
        ensures
            *r == self.value_spec()->0,
    {
        self.value.as_ref().unwrap()
    }
}

/// The phase word of a lazy value orders its transitions.
impl<T, G: Generator<T>> Sequentializer<UnSyncLazy<T, G>> for Phase {
    open spec fn ready(s: &UnSyncLazy<T, G>) -> bool {
        s.wf()
    }

    fn init<F: Fn(Phase) -> bool>(
        s: &mut UnSyncLazy<T, G>,
        shall_proceed: F,
        reg: Registration,
        init_on_reg_failure: bool,
    ) -> (r: bool) {
        s.init(shall_proceed, reg, init_on_reg_failure)
    }
}

impl<T: Finaly, G: Generator<T>> UnSyncLazy<T, G> {
    /// A terminal event of the object's life: the finalizer firing, or the
    /// refusal of its registration under the policy that recovers then.
    /// The data's recoverer runs where it is due, and at most once; the
    /// result says whether it ran.
    pub fn end(&mut self, t: Terminal) -> (r: bool)
        requires
            old(self).wf(),
        ensures
            final(self).wf(),
            r == terminal_next(old(self).phase_spec(), t).1,
            final(self).phase_spec() == if r {
                recovered_next(terminal_next(old(self).phase_spec(), t).0, false)
            } else {
                old(self).phase_spec()
            },
            final(self).value_spec() == old(self).value_spec(),
            final(self).generator_spec() == old(self).generator_spec(),
    {
        broadcast use group_phase_bits;

        let (q, run) = terminal(self.phase, t);
        if run {
            self.phase = q;
            self.value.as_ref().unwrap().finaly();
            self.phase = recovered(q, false);
        }
        run
    }
}

} // verus!
