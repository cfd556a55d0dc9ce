//! Ordered startup and shutdown of long-lived state.
//!
//! The library holds the decision logic of lazily initialized values and of
//! teardown registries:
//!
//! - [phase]: the word of independent bits that records an object's
//!   progress;
//! - [once]: the protocol that turns racing or reentrant first accesses into
//!   a single initialization;
//! - [lazy]: a lazily initialized value owned by one thread;
//! - [finalize]: when an object's recoverer runs, at most once;
//! - [at_thread_exit]: the registries that run finalizers at thread or
//!   process exit, in reverse order of registration, and the decisions of
//!   their platform backends;
//! - [priority]: the order in which priority-declared objects are built at
//!   startup and dropped at shutdown.
use vstd::prelude::*;

pub mod at_thread_exit;
pub mod finalize;
pub mod lazy;
pub mod once;
pub mod phase;
pub mod priority;

pub use phase::Phase;
pub use lazy::UnSyncLazy;
pub use priority::{FinalyMode, InitMode};

verus! {

/// Objects made of data and of the sequentializer that orders the data's
/// phase transitions; both are fields of the same object, with the same
/// lifetime.
pub trait Sequential {
    type Data;

    type Sequentializer;

    spec fn data_spec(&self) -> Self::Data;

    spec fn sequentializer_spec(&self) -> Self::Sequentializer;

    fn sequentializer(this: &Self) -> (r: &Self::Sequentializer)
        ensures
            *r == this.sequentializer_spec(),
    ;

    fn data(this: &Self) -> (r: &Self::Data)
        ensures
            *r == this.data_spec(),
    ;
}

/// Objects that know in which phase they are.
pub trait Phased {
    /// The phase that the object is in.
    spec fn phase_spec(&self) -> Phase;

    /// The current phase.
    fn phase(this: &Self) -> (r: Phase)
        ensures
            r == this.phase_spec(),
    ;
}

/// A phase word is in the phase it records.
impl Phased for Phase {
    open spec fn phase_spec(&self) -> Phase {
        *self
    }

    fn phase(this: &Self) -> (r: Phase) {
        *this
    }
}

/// A sequential object is in the phase of its sequentializer.
impl<S: Sequential> Phased for S where S::Sequentializer: Phased {
    open spec fn phase_spec(&self) -> Phase {
        self.sequentializer_spec().phase_spec()
    }

    fn phase(this: &Self) -> (r: Phase) {
        Phased::phase(Sequential::sequentializer(this))
    }
}

/// A sequentializer orders the phase transitions of the object it belongs
/// to: one initialization attempt at a time, under the caller's rule
/// `shall_proceed` on the observed phase, with `reg` the outcome of the
/// finalizer's registration and `init_on_reg_failure` whether a refused
/// registration still lets the value be built. The result says whether the
/// object is initialized; an initialized object keeps its phase.
pub trait Sequentializer<T: Sequential<Sequentializer = Self> + Phased>: Sized + Phased {
    fn init<F: Fn(Phase) -> bool>(
        s: &mut T,
        shall_proceed: F,
        reg: once::Registration,
        init_on_reg_failure: bool,
    ) -> (r: bool)
        requires
            forall|p: Phase| shall_proceed.requires((p,)),
            Self::ready(&*old(s)),
        ensures
            Self::ready(&*final(s)),
            r == final(s).phase_spec().has(phase::Flag::Initialized),
            old(s).phase_spec().has(phase::Flag::Initialized) ==> final(s).phase_spec() == old(
                s,
            ).phase_spec(),
    ;

    /// The object is in a state that the sequentializer can work on.
    spec fn ready(s: &T) -> bool;
}

/// Generates a value of type `T`.
pub trait Generator<T> {
    fn generate(&self) -> T;
}

/// A drop replacement that does not change the state of the object.
pub trait Finaly {
    fn finaly(&self);
}

/// The error of an access that reenters its own initialization under the
/// report policy.
#[derive(Clone, Copy, Debug, PartialEq, Eq, Structural)]
pub struct CyclicPanic;

/// What a declaration says of its object, for diagnostics.
#[derive(Debug)]
pub struct StaticInfo {
    pub variable_name: &'static str,
    pub file_name: &'static str,
    pub line: u32,
    pub column: u32,
    pub init_mode: InitMode,
    pub drop_mode: FinalyMode,
}

} // verus!
