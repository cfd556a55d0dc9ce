use static_init::at_thread_exit::{
    key_race, AtThreadLocalExit, Backend, HookRequest, KeyRace, Status, ExitRegistry,
    DESTRUCTOR_ITERATIONS, NO_KEY,
};

/// Runs the drain as the thread-exit callback does; the finalizer of
/// `spawner`, when it runs, registers `spawned`.
fn drain(reg: &mut ExitRegistry<u32>, spawner: Option<(usize, usize)>) -> Vec<u32> {
    let mut ran = Vec::new();
    reg.begin_exit();
    while let Some(id) = reg.next_finalizer() {
        assert_eq!(reg.status(id), Status::Executing);
        ran.push(*reg.data(id));
        if let Some((s, n)) = spawner {
            if s == id {
                assert_eq!(reg.register(n, true), Ok(()));
            }
        }
        reg.finish(id);
    }
    reg.end_exit();
    ran
}

#[test]
fn finalizers_run_in_reverse_order_of_registration() {
    let mut reg: ExitRegistry<u32> = ExitRegistry::new(Backend::LoaderHook);
    let a = reg.add(1);
    let b = reg.add(2);
    let c = reg.add(3);
    assert_eq!(reg.hook_request(a), HookRequest::InstallExitHook);
    assert_eq!(reg.register(a, true), Ok(()));
    assert_eq!(reg.hook_request(c), HookRequest::Nothing);
    // A registered object needs no outside work: it cannot be registered again.
    assert_eq!(reg.hook_request(a), HookRequest::Nothing);
    assert_eq!(reg.register(c, true), Ok(()));
    assert_eq!(reg.register(b, true), Ok(()));
    assert_eq!(drain(&mut reg, None), vec![2, 3, 1]);
    for id in [a, b, c] {
        assert_eq!(reg.status(id), Status::Executed);
    }
}

#[test]
fn a_finalizer_registered_while_draining_also_runs() {
    let mut reg: ExitRegistry<u32> = ExitRegistry::new(Backend::LoaderHook);
    let a = reg.add(10);
    let b = reg.add(20);
    let late = reg.add(30);
    assert_eq!(reg.register(a, true), Ok(()));
    assert_eq!(reg.register(b, true), Ok(()));
    reg.begin_exit();
    // While the drain runs no new callback is installed.
    assert_eq!(reg.hook_request(late), HookRequest::Nothing);
    reg.end_exit();
    assert_eq!(drain(&mut reg, Some((b, late))), vec![20, 30, 10]);
    assert_eq!(reg.status(late), Status::Executed);
}

#[test]
fn registering_twice_is_refused_with_the_status() {
    let mut reg: ExitRegistry<u32> = ExitRegistry::new(Backend::CallbackArray);
    let a = reg.add(1);
    assert_eq!(reg.register(a, true), Ok(()));
    assert_eq!(reg.register(a, true), Err(Status::Registered));
    assert_eq!(drain(&mut reg, None), vec![1]);
    assert_eq!(reg.register(a, true), Err(Status::Executed));
    assert_eq!(drain(&mut reg, None), Vec::<u32>::new());
}

#[test]
fn failed_hook_installation_refuses() {
    let mut reg: ExitRegistry<u32> = ExitRegistry::new(Backend::LoaderHook);
    let a = reg.add(1);
    assert_eq!(reg.register(a, false), Err(Status::RegistrationClosed));
    assert_eq!(reg.status(a), Status::RegistrationClosed);
    assert!(!reg.registration_closed());
    assert_eq!(drain(&mut reg, None), Vec::<u32>::new());
}

#[test]
fn callback_array_closes_after_detach() {
    let mut reg: ExitRegistry<u32> = ExitRegistry::new(Backend::CallbackArray);
    let a = reg.add(1);
    let b = reg.add(2);
    assert_eq!(reg.register(a, false), Ok(()));
    assert!(!reg.registration_closed());
    assert_eq!(drain(&mut reg, None), vec![1]);
    assert!(reg.registration_closed());
    assert_eq!(reg.register(b, true), Err(Status::RegistrationClosed));
}

#[test]
fn unsupported_target_always_refuses() {
    let mut reg: ExitRegistry<u32> = ExitRegistry::new(Backend::Unsupported);
    let a = reg.add(1);
    assert!(reg.registration_closed());
    assert_eq!(reg.register(a, true), Err(Status::RegistrationClosed));
}

#[test]
fn destructor_key_bound_closes_registration() {
    let mut reg: ExitRegistry<u32> = ExitRegistry::new(Backend::DestructorKey);
    let mut ids = Vec::new();
    for k in 0..6 {
        ids.push(reg.add(k));
    }
    // Each round arms the key once; the platform clears it before the
    // destructor runs.
    for round in 0..DESTRUCTOR_ITERATIONS {
        assert!(!reg.registration_closed());
        assert_eq!(reg.hook_request(ids[round]), HookRequest::ArmKey);
        assert_eq!(reg.register(ids[round], true), Ok(()));
        assert_eq!(reg.hook_request(ids[round + 1]), HookRequest::Nothing);
        assert_eq!(drain(&mut reg, None), vec![round as u32]);
    }
    assert!(reg.registration_closed());
    assert_eq!(reg.hook_request(ids[4]), HookRequest::Nothing);
    assert_eq!(reg.register(ids[4], true), Err(Status::RegistrationClosed));
    assert_eq!(reg.register(ids[5], true), Err(Status::RegistrationClosed));
    assert!(reg.registration_closed());
}

#[test]
fn failed_key_arming_refuses_without_spending_the_bound() {
    let mut reg: ExitRegistry<u32> = ExitRegistry::new(Backend::DestructorKey);
    let a = reg.add(1);
    let b = reg.add(2);
    assert_eq!(reg.register(a, false), Err(Status::RegistrationClosed));
    assert_eq!(reg.hook_request(a), HookRequest::Nothing);
    assert_eq!(reg.hook_request(b), HookRequest::ArmKey);
    assert_eq!(reg.register(b, true), Ok(()));
}

#[test]
fn node_starts_unregistered() {
    let node = AtThreadLocalExit::new(5u8);
    assert_eq!(node.status(), Status::NonRegistered);
    assert_eq!(node.data, 5);
}

#[test]
fn key_race_keeps_or_discards() {
    assert_eq!(key_race(3, Ok(NO_KEY)), KeyRace::Won(3));
    assert_eq!(key_race(3, Err(9)), KeyRace::Lost { discard: 3, winner: 9 });
}

#[test]
fn closed_process_exit_asks_for_no_hook() {
    let mut reg: ExitRegistry<u32> = ExitRegistry::new(Backend::ProcessExit);
    let a = reg.add(1);
    assert_eq!(reg.hook_request(a), HookRequest::InstallExitHook);
    assert_eq!(reg.register(a, true), Ok(()));
    assert_eq!(drain(&mut reg, None), vec![1]);
    let b = reg.add(2);
    assert!(reg.registration_closed());
    assert_eq!(reg.hook_request(b), HookRequest::Nothing);
    assert_eq!(reg.register(b, true), Err(Status::RegistrationClosed));
}
