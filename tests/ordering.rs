use static_init::at_thread_exit::{Backend, ExitRegistry, HookRequest, Status};
use static_init::priority::{ranked_order, shutdown_order, startup_order};
use static_init::{FinalyMode, Generator, InitMode, UnSyncLazy};
use std::cell::Cell;

#[test]
fn startup_runs_higher_priorities_first() {
    let modes = vec![
        InitMode::QuasiLazy,
        InitMode::ProgramConstructor(0),
        InitMode::Lazy,
        InitMode::ProgramConstructor(200),
        InitMode::Const,
        InitMode::ProgramConstructor(0),
    ];
    assert_eq!(startup_order(&modes), vec![3, 1, 5, 0]);
}

#[test]
fn shutdown_runs_unprioritized_then_ascending() {
    let modes = vec![
        FinalyMode::ProgramDestructor(100),
        FinalyMode::Finalize,
        FinalyMode::ProgramDestructor(0),
        FinalyMode::Drop,
        FinalyMode::Never,
        FinalyMode::ProgramDestructor(65535),
    ];
    assert_eq!(shutdown_order(&modes), vec![3, 2, 0, 5]);
}

#[test]
fn ranked_order_edge_cases() {
    assert_eq!(ranked_order(&vec![]), Vec::<usize>::new());
    assert_eq!(ranked_order(&vec![None, None]), Vec::<usize>::new());
    assert_eq!(ranked_order(&vec![Some(7), Some(7), Some(7)]), vec![0, 1, 2]);
    assert_eq!(ranked_order(&vec![Some(0), None, Some(u32::MAX), Some(1)]), vec![2, 3, 0]);
}

// Counts how often it was asked to generate.
struct Counting<'a> {
    calls: &'a Cell<u32>,
    value: i64,
}

impl<'a> Generator<i64> for Counting<'a> {
    fn generate(&self) -> i64 {
        self.calls.set(self.calls.get() + 1);
        self.value
    }
}

#[test]
fn lazy_value_is_generated_once() {
    let calls = Cell::new(0);
    let mut lazy = UnSyncLazy::new(Counting { calls: &calls, value: -3 });
    assert!(!lazy.is_initialized());
    lazy.force();
    assert!(lazy.is_initialized());
    assert_eq!(*lazy.get(), -3);
    lazy.force();
    lazy.force();
    assert_eq!(*lazy.get(), -3);
    assert_eq!(calls.get(), 1);
}

// A is declared at priority 10 and B at priority 0, B's generator taking a
// snapshot of A; C asks for a finalizer and has no priority.
#[test]
fn end_to_end_startup_and_shutdown() {
    const A: usize = 0;
    const B: usize = 1;
    const C: usize = 2;
    let init = vec![InitMode::ProgramConstructor(10), InitMode::ProgramConstructor(0), InitMode::Lazy];
    let mut values: Vec<Option<i32>> = vec![None; 3];
    for k in startup_order(&init) {
        values[k] = Some(match k {
            A => 7,
            B => values[A].expect("A read before it was built") * 2,
            _ => unreachable!(),
        });
    }
    assert_eq!(values[B], Some(values[A].unwrap() * 2));
    assert_eq!(values[A], Some(7));

    // C is built at first access and registers its finalizer then.
    let mut at_exit: ExitRegistry<usize> = ExitRegistry::new(Backend::ProcessExit);
    values[C] = Some(1);
    let node = at_exit.add(C);
    assert_eq!(at_exit.hook_request(node), HookRequest::InstallExitHook);
    assert_eq!(at_exit.register(node, true), Ok(()));

    // Program exit: the priority slots, then the process-exit list.
    let fin = vec![
        FinalyMode::ProgramDestructor(10),
        FinalyMode::ProgramDestructor(0),
        FinalyMode::Finalize,
    ];
    let mut ran = shutdown_order(&fin);
    assert_eq!(ran, vec![B, A]);
    at_exit.begin_exit();
    while let Some(id) = at_exit.next_finalizer() {
        ran.push(*at_exit.data(id));
        at_exit.finish(id);
    }
    at_exit.end_exit();
    assert_eq!(ran, vec![B, A, C]);
    assert_eq!(ran.iter().filter(|&&k| k == C).count(), 1);
    // Past the exit routine, the process accepts no finalizer any more.
    assert!(at_exit.registration_closed());
    let late = at_exit.add(C);
    assert_eq!(at_exit.register(late, true), Err(Status::RegistrationClosed));
}
