use static_init::finalize::{recovered, terminal, Terminal};
use static_init::phase::{Flag, FINALIZING_BIT, INITED_BIT, REGISTERED_BIT};
use static_init::Phase;

#[test]
fn finalizer_runs_the_recoverer_once() {
    let p = Phase(INITED_BIT | REGISTERED_BIT);
    let (q, run) = terminal(p, Terminal::Finalize);
    assert!(run);
    assert_eq!(q.0, INITED_BIT | REGISTERED_BIT | FINALIZING_BIT);
    // A second terminal event while it runs does nothing.
    assert_eq!(terminal(q, Terminal::Finalize), (q, false));
    let done = recovered(q, false);
    assert!(done.finalized() && !done.finalizing());
    assert_eq!(terminal(done, Terminal::Finalize), (done, false));
    assert_eq!(terminal(done, Terminal::RefusalRecovery), (done, false));
}

#[test]
fn refusal_recovery_needs_a_refused_registration() {
    let refused = Phase::new().with(Flag::Initialized).with(Flag::RegistrationRefused);
    let (q, run) = terminal(refused, Terminal::RefusalRecovery);
    assert!(run);
    assert!(q.finalizing());
    assert_eq!(terminal(refused, Terminal::Finalize), (refused, false));
    let registered = Phase(INITED_BIT | REGISTERED_BIT);
    assert_eq!(terminal(registered, Terminal::RefusalRecovery), (registered, false));
}

#[test]
fn uninitialized_object_is_not_recovered() {
    let p = Phase(REGISTERED_BIT);
    assert_eq!(terminal(p, Terminal::Finalize), (p, false));
}

#[test]
fn panicking_recoverer_is_recorded() {
    let (q, _) = terminal(Phase(INITED_BIT | REGISTERED_BIT), Terminal::Finalize);
    let r = recovered(q, true);
    assert!(r.finalization_panic());
    assert!(!r.finalized());
    assert_eq!(terminal(r, Terminal::Finalize), (r, false));
}
