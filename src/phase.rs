//! The phase word: a set of independent facts about one guarded object.
use vstd::prelude::*;

verus! {

pub const INITED_BIT: u32 = 1;
pub const INITIALIZING_BIT: u32 = 2;
pub const INITIALIZING_PANICKED_BIT: u32 = 4;
pub const INIT_SKIPED_BIT: u32 = 8;
pub const LOCKED_BIT: u32 = 16;
pub const PARKED_BIT: u32 = 32;
pub const REGISTRATING_BIT: u32 = 64;
pub const REGISTRATING_PANIC_BIT: u32 = 128;
pub const REGISTRATION_REFUSED_BIT: u32 = 256;
pub const REGISTERED_BIT: u32 = 512;
pub const FINALIZING_BIT: u32 = 1024;
pub const FINALIZED_BIT: u32 = 2048;
pub const FINALIZATION_PANIC_BIT: u32 = 4096;

/// One fact that a phase may record; each has a bit of its own.
#[derive(Clone, Copy, Debug, PartialEq, Eq, Structural)]
pub enum Flag {
    Initialized,
    Initializing,
    InitializationPanicked,
    InitializationSkipped,
    Locked,
    Parked,
    Registrating,
    RegistrationPanicked,
    RegistrationRefused,
    Registered,
    Finalizing,
    Finalized,
    FinalizationPanicked,
}

impl Flag {
    /// The position of the flag's bit in the phase word.
    pub open spec fn index(self) -> u32 {
        match self {
            Flag::Initialized => 0,
            Flag::Initializing => 1,
            Flag::InitializationPanicked => 2,
            Flag::InitializationSkipped => 3,
            Flag::Locked => 4,
            Flag::Parked => 5,
            Flag::Registrating => 6,
            Flag::RegistrationPanicked => 7,
            Flag::RegistrationRefused => 8,
            Flag::Registered => 9,
            Flag::Finalizing => 10,
            Flag::Finalized => 11,
            Flag::FinalizationPanicked => 12,
        }
    }

    pub open spec fn mask(self) -> u32 {
        1u32 << self.index()
    }

    /// The flag's bit, at run time.
    pub fn bit(self) -> (r: u32)
        ensures
            r == self.mask(),
    {
        proof {
            lemma_masks();
        }
        match self {
            Flag::Initialized => INITED_BIT,
            Flag::Initializing => INITIALIZING_BIT,
            Flag::InitializationPanicked => INITIALIZING_PANICKED_BIT,
            Flag::InitializationSkipped => INIT_SKIPED_BIT,
            Flag::Locked => LOCKED_BIT,
            Flag::Parked => PARKED_BIT,
            Flag::Registrating => REGISTRATING_BIT,
            Flag::RegistrationPanicked => REGISTRATING_PANIC_BIT,
            Flag::RegistrationRefused => REGISTRATION_REFUSED_BIT,
            Flag::Registered => REGISTERED_BIT,
            Flag::Finalizing => FINALIZING_BIT,
            Flag::Finalized => FINALIZED_BIT,
            Flag::FinalizationPanicked => FINALIZATION_PANIC_BIT,
        }
    }
}

/// Phase of a sequentialized object, as a word of independent bits.
#[derive(Clone, Copy, Debug, PartialEq, Eq, Structural)]
pub struct Phase(pub u32);

impl View for Phase {
    type V = Set<Flag>;

    /// The facts that the phase records.
    open spec fn view(&self) -> Set<Flag> {
        Set::new(|f: Flag| self.0 & f.mask() != 0)
    }
}

/// Setting or clearing one bit leaves every other bit as it was.
proof fn lemma_single_bits(x: u32, i: u32, j: u32)
    requires
        i < 32,
        j < 32,
    ensures
        ((x | (1u32 << i)) & (1u32 << j) != 0) == ((x & (1u32 << j)) != 0 || i == j),
        ((x & !(1u32 << i)) & (1u32 << j) != 0) == ((x & (1u32 << j)) != 0 && i != j),
{
    assert(((x | (1u32 << i)) & (1u32 << j) != 0) == ((x & (1u32 << j)) != 0 || i == j))
        by (bit_vector)
        requires
            i < 32,
            j < 32,
    ;
    assert(((x & !(1u32 << i)) & (1u32 << j) != 0) == ((x & (1u32 << j)) != 0 && i != j))
        by (bit_vector)
        requires
            i < 32,
            j < 32,
    ;
}

/// Setting a flag's bit records that flag and changes no other.
pub broadcast proof fn lemma_added(p: Phase, f: Flag)
    ensures
        (#[trigger] p.added(f))@ == p@.insert(f),
        p.well_formed() ==> p.added(f).well_formed(),
        p.added(f).0 != 0,
{
    let r = p.added(f);
    let x = p.0;
    let i = f.index();
    assert forall|g: Flag| r@.contains(g) == (p@.contains(g) || g == f) by {
        lemma_single_bits(x, i, g.index());
    }
    assert(r@ =~= p@.insert(f));
    assert(x < 8192 && i < 13 ==> (x | (1u32 << i)) < 8192) by (bit_vector);
    assert(i < 13 ==> (x | (1u32 << i)) != 0) by (bit_vector);
}

/// Clearing a flag's bit forgets that flag and changes no other.
pub broadcast proof fn lemma_cleared(p: Phase, f: Flag)
    ensures
        (#[trigger] p.cleared(f))@ == p@.remove(f),
        p.well_formed() ==> p.cleared(f).well_formed(),
{
    let r = p.cleared(f);
    let x = p.0;
    let i = f.index();
    assert forall|g: Flag| r@.contains(g) == (p@.contains(g) && g != f) by {
        lemma_single_bits(x, i, g.index());
    }
    assert(r@ =~= p@.remove(f));
    assert(x < 8192 && i < 13 ==> (x & !(1u32 << i)) < 8192) by (bit_vector);
}

/// The initial word records no flag.
pub broadcast proof fn lemma_initial_records_nothing(p: Phase, f: Flag)
    requires
        p.0 == 0,
    ensures
        !#[trigger] p.has(f),
{
    let m = f.mask();
    assert(0u32 & m == 0) by (bit_vector);
}

/// What the initial word records, and what setting and clearing bits does
/// to the recorded facts.
pub broadcast group group_phase_bits {
    lemma_added,
    lemma_cleared,
    lemma_initial_records_nothing,
}

/// A word that records some flag is not the initial one.
pub proof fn lemma_recorded_not_initial(p: Phase, f: Flag)
    requires
        p.has(f),
    ensures
        p.0 != 0,
{
    let x = p.0;
    let m = f.mask();
    assert(x & m != 0 ==> x != 0) by (bit_vector);
}

/// The named bit constants are the masks of their flags.
proof fn lemma_masks()
    ensures
        Flag::Initialized.mask() == INITED_BIT,
        Flag::Initializing.mask() == INITIALIZING_BIT,
        Flag::InitializationPanicked.mask() == INITIALIZING_PANICKED_BIT,
        Flag::InitializationSkipped.mask() == INIT_SKIPED_BIT,
        Flag::Locked.mask() == LOCKED_BIT,
        Flag::Parked.mask() == PARKED_BIT,
        Flag::Registrating.mask() == REGISTRATING_BIT,
        Flag::RegistrationPanicked.mask() == REGISTRATING_PANIC_BIT,
        Flag::RegistrationRefused.mask() == REGISTRATION_REFUSED_BIT,
        Flag::Registered.mask() == REGISTERED_BIT,
        Flag::Finalizing.mask() == FINALIZING_BIT,
        Flag::Finalized.mask() == FINALIZED_BIT,
        Flag::FinalizationPanicked.mask() == FINALIZATION_PANIC_BIT,
{
    assert(1u32 << 0u32 == 1u32) by (bit_vector);
    assert(1u32 << 1u32 == 2u32) by (bit_vector);
    assert(1u32 << 2u32 == 4u32) by (bit_vector);
    assert(1u32 << 3u32 == 8u32) by (bit_vector);
    assert(1u32 << 4u32 == 16u32) by (bit_vector);
    assert(1u32 << 5u32 == 32u32) by (bit_vector);
    assert(1u32 << 6u32 == 64u32) by (bit_vector);
    assert(1u32 << 7u32 == 128u32) by (bit_vector);
    assert(1u32 << 8u32 == 256u32) by (bit_vector);
    assert(1u32 << 9u32 == 512u32) by (bit_vector);
    assert(1u32 << 10u32 == 1024u32) by (bit_vector);
    assert(1u32 << 11u32 == 2048u32) by (bit_vector);
    assert(1u32 << 12u32 == 4096u32) by (bit_vector);
}

impl Phase {
    pub open spec fn has(self, f: Flag) -> bool {
        self@.contains(f)
    }

    /// The word with the flag's bit set.
    pub open spec fn added(self, f: Flag) -> Phase {
        Phase(self.0 | f.mask())
    }

    /// The word with the flag's bit cleared.
    pub open spec fn cleared(self, f: Flag) -> Phase {
        Phase(self.0 & !f.mask())
    }

    /// The phase of an object that nothing has touched yet.
    pub fn new() -> (r: Phase)
        ensures
            r@ == Set::<Flag>::empty(),
            r.0 == 0,
    {
        let r = Phase(0);
        assert forall|f: Flag| !r@.contains(f) by {
            assert(0u32 & f.mask() == 0) by (bit_vector);
        }
        assert(r@ =~= Set::<Flag>::empty());
        r
    }

    /// No bit lies outside the thirteen flags.
    pub open spec fn well_formed(self) -> bool {
        self.0 < 8192
    }

    pub fn initial_state(self) -> (r: bool)
        ensures
            r == (self.0 == 0),
            self.well_formed() ==> (r == (self@ == Set::<Flag>::empty())),
    {
        if self.0 == 0 {
            assert forall|f: Flag| !self@.contains(f) by {
                assert(0u32 & f.mask() == 0) by (bit_vector);
            }
            assert(self@ =~= Set::<Flag>::empty());
            true
        } else {
            let x = self.0;
            if x < 8192 {
                proof {
                    lemma_masks();
                    assert(x != 0 && x < 8192 ==> x & 1 != 0 || x & 2 != 0 || x & 4 != 0
                        || x & 8 != 0 || x & 16 != 0 || x & 32 != 0 || x & 64 != 0
                        || x & 128 != 0 || x & 256 != 0 || x & 512 != 0 || x & 1024 != 0
                        || x & 2048 != 0 || x & 4096 != 0) by (bit_vector);
                    assert(self@.contains(Flag::Initialized) || self@.contains(Flag::Initializing)
                        || self@.contains(Flag::InitializationPanicked)
                        || self@.contains(Flag::InitializationSkipped)
                        || self@.contains(Flag::Locked) || self@.contains(Flag::Parked)
                        || self@.contains(Flag::Registrating)
                        || self@.contains(Flag::RegistrationPanicked)
                        || self@.contains(Flag::RegistrationRefused)
                        || self@.contains(Flag::Registered) || self@.contains(Flag::Finalizing)
                        || self@.contains(Flag::Finalized)
                        || self@.contains(Flag::FinalizationPanicked));
                }
            }
            false
        }
    }

    pub fn finalize_registration(self) -> (r: bool)
        ensures
            r == self.has(Flag::Registrating),
    {
        proof {
            lemma_masks();
        }
        self.0 & REGISTRATING_BIT != 0
    }

    pub fn finalize_registration_panicked(self) -> (r: bool)
        ensures
            r == self.has(Flag::RegistrationPanicked),
    {
        proof {
            lemma_masks();
        }
        self.0 & REGISTRATING_PANIC_BIT != 0
    }

    pub fn finalize_registration_refused(self) -> (r: bool)
        ensures
            r == self.has(Flag::RegistrationRefused),
    {
        proof {
            lemma_masks();
        }
        self.0 & REGISTRATION_REFUSED_BIT != 0
    }

    pub fn finalize_registration_failed(self) -> (r: bool)
        ensures
            r == (self.has(Flag::RegistrationRefused) || self.has(Flag::RegistrationPanicked)),
    {
        proof {
            lemma_masks();
            let x = self.0;
            assert((x & (256u32 | 128u32) != 0) == (x & 256u32 != 0 || x & 128u32 != 0))
                by (bit_vector);
        }
        self.0 & (REGISTRATION_REFUSED_BIT | REGISTRATING_PANIC_BIT) != 0
    }

    pub fn finalize_registrated(self) -> (r: bool)
        ensures
            r == self.has(Flag::Registered),
    {
        proof {
            lemma_masks();
        }
        self.0 & REGISTERED_BIT != 0
    }

    pub fn initialization(self) -> (r: bool)
        ensures
            r == self.has(Flag::Initializing),
    {
        proof {
            lemma_masks();
        }
        self.0 & INITIALIZING_BIT != 0
    }

    pub fn initialization_panicked(self) -> (r: bool)
        ensures
            r == self.has(Flag::InitializationPanicked),
    {
        proof {
            lemma_masks();
        }
        self.0 & INITIALIZING_PANICKED_BIT != 0
    }

    pub fn initialization_skiped(self) -> (r: bool)
        ensures
            r == self.has(Flag::InitializationSkipped),
    {
        proof {
            lemma_masks();
        }
        self.0 & INIT_SKIPED_BIT != 0
    }

    pub fn initialized(self) -> (r: bool)
        ensures
            r == self.has(Flag::Initialized),
    {
        proof {
            lemma_masks();
        }
        self.0 & INITED_BIT != 0
    }

    pub fn locked(self) -> (r: bool)
        ensures
            r == self.has(Flag::Locked),
    {
        proof {
            lemma_masks();
        }
        self.0 & LOCKED_BIT != 0
    }

    pub fn parked(self) -> (r: bool)
        ensures
            r == self.has(Flag::Parked),
    {
        proof {
            lemma_masks();
        }
        self.0 & PARKED_BIT != 0
    }

    pub fn finalizing(self) -> (r: bool)
        ensures
            r == self.has(Flag::Finalizing),
    {
        proof {
            lemma_masks();
        }
        self.0 & FINALIZING_BIT != 0
    }

    pub fn finalization_panic(self) -> (r: bool)
        ensures
            r == self.has(Flag::FinalizationPanicked),
    {
        proof {
            lemma_masks();
        }
        self.0 & FINALIZATION_PANIC_BIT != 0
    }

    pub fn finalized(self) -> (r: bool)
        ensures
            r == self.has(Flag::Finalized),
    {
        proof {
            lemma_masks();
        }
        self.0 & FINALIZED_BIT != 0
    }

    /// The phase with one more fact recorded.
    pub fn with(self, f: Flag) -> (r: Phase)
        ensures
            r == self.added(f),
            r@ == self@.insert(f),
            self.well_formed() ==> r.well_formed(),
    {
        let b = f.bit();
        proof {
            lemma_added(self, f);
        }
        Phase(self.0 | b)
    }

    /// The phase with one fact cleared.
    pub fn without(self, f: Flag) -> (r: Phase)
        ensures
            r == self.cleared(f),
            r@ == self@.remove(f),
            self.well_formed() ==> r.well_formed(),
    {
        let b = f.bit();
        proof {
            lemma_cleared(self, f);
        }
        Phase(self.0 & !b)
    }
}

} // verus!
