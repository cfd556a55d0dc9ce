use static_init::once::{access, after_registration, release, Access, CyclicPolicy, Registration};
use static_init::phase::{INITED_BIT, INITIALIZING_BIT, LOCKED_BIT, REGISTRATING_BIT};
use static_init::Phase;

#[test]
fn first_access_takes_the_lock() {
    let (p, a) = access(Phase::new(), true, false, CyclicPolicy::Report, false);
    assert_eq!(a, Access::Proceed);
    assert_eq!(p.0, LOCKED_BIT | INITIALIZING_BIT);
    let (p, a) = access(Phase::new(), true, false, CyclicPolicy::Report, true);
    assert_eq!(a, Access::Proceed);
    assert_eq!(p.0, LOCKED_BIT | REGISTRATING_BIT);
}

#[test]
fn racing_access_waits_and_parks() {
    let (p, _) = access(Phase::new(), true, false, CyclicPolicy::Report, false);
    let (q, a) = access(p, false, false, CyclicPolicy::Report, false);
    assert_eq!(a, Access::Wait);
    assert!(q.parked() && q.locked());
}

// Many threads race on one object: one of them runs the generator, every
// other waits, and after the release each reads the same initialized value.
#[test]
fn racing_accessors_one_generator() {
    let mut phase = Phase::new();
    let mut generated = 0;
    let mut value: Option<i32> = None;
    let mut waiting = Vec::new();
    for thread in 0..8 {
        let (p, a) = access(phase, phase.initial_state(), false, CyclicPolicy::Report, false);
        phase = p;
        match a {
            Access::Proceed => {
                let (p, run) = after_registration(phase, Registration::NotRequested, false);
                assert!(run);
                generated += 1;
                value = Some(42);
                phase = p;
            }
            Access::Wait => waiting.push(thread),
            other => panic!("unexpected {:?}", other),
        }
    }
    assert!(phase.parked());
    phase = release(phase, false);
    assert_eq!(phase.0 & (INITED_BIT | LOCKED_BIT), INITED_BIT);
    assert!(!phase.parked());
    assert_eq!(waiting.len(), 7);
    for _ in waiting {
        let (p, a) = access(phase, phase.initial_state(), false, CyclicPolicy::Report, false);
        assert_eq!(a, Access::Ready);
        assert_eq!(p, phase);
        assert_eq!(value, Some(42));
    }
    assert_eq!(generated, 1);
}

#[test]
fn reentrant_access_resolves_by_policy() {
    let (p, _) = access(Phase::new(), true, false, CyclicPolicy::Skip, false);
    let (q, a) = access(p, false, true, CyclicPolicy::Skip, false);
    assert_eq!(a, Access::Skip);
    assert!(q.initialization_skiped());
    assert!(q.locked());
    let (r, b) = access(p, false, true, CyclicPolicy::Report, false);
    assert_eq!(b, Access::Cyclic);
    assert_eq!(r, p);
}

#[test]
fn panicked_generator_is_never_retried_by_default() {
    let (p, _) = access(Phase::new(), true, false, CyclicPolicy::Report, false);
    let (p, _) = after_registration(p, Registration::NotRequested, false);
    let p = release(p, true);
    assert!(p.initialization_panicked());
    assert!(!p.initialized());
    assert!(!p.locked());
    let (q, a) = access(p, p.initial_state(), false, CyclicPolicy::Report, false);
    assert_eq!(a, Access::Refused);
    assert_eq!(q, p);
    // A predicate that opts into a retry gets the lock again.
    let (_, b) = access(p, true, false, CyclicPolicy::Report, false);
    assert_eq!(b, Access::Proceed);
}

#[test]
fn registration_outcomes() {
    let (p, _) = access(Phase::new(), true, false, CyclicPolicy::Report, true);
    let (q, run) = after_registration(p, Registration::Registered, false);
    assert!(run);
    assert!(q.finalize_registrated() && q.initialization() && !q.finalize_registration());
    let (q, run) = after_registration(p, Registration::Refused, true);
    assert!(run);
    assert!(q.finalize_registration_refused() && q.locked());
    let (q, run) = after_registration(p, Registration::Refused, false);
    assert!(!run);
    assert!(q.finalize_registration_refused() && !q.locked());
    assert_eq!(access(q, q.initial_state(), false, CyclicPolicy::Report, true).1, Access::Refused);
    let (q, run) = after_registration(p, Registration::Panicked, true);
    assert!(!run);
    assert!(q.finalize_registration_panicked() && q.finalize_registration_failed());
}
