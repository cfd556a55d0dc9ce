use static_init::at_thread_exit::{AtThreadLocalExit, Status};
use static_init::once::{backoff, Backoff, SPIN_LIMIT};
use static_init::{
    CyclicPanic, FinalyMode, Generator, InitMode, Phased, Sequential, StaticInfo, UnSyncLazy,
};

struct Seven;

impl Generator<u8> for Seven {
    fn generate(&self) -> u8 {
        7
    }
}

#[test]
fn lazy_reports_its_phase() {
    let mut lazy = UnSyncLazy::new(Seven);
    assert!(Phased::phase(&lazy).initial_state());
    lazy.force();
    let p = Phased::phase(&lazy);
    assert!(p.initialized());
    assert!(!p.locked() && !p.initialization() && !p.parked());
    assert_eq!(*lazy.get(), 7);
}

#[test]
fn thread_exit_object_is_sequential() {
    let node = AtThreadLocalExit::new(String::from("data"));
    assert_eq!(Sequential::data(&node), "data");
    assert_eq!(Sequential::sequentializer(&node), &node.managed);
    assert_eq!(node.status(), Status::NonRegistered);
}

#[test]
fn waiters_spin_then_park() {
    assert_eq!(backoff(0), Backoff::Spin);
    assert_eq!(backoff(SPIN_LIMIT - 1), Backoff::Spin);
    assert_eq!(backoff(SPIN_LIMIT), Backoff::Park);
    assert_eq!(backoff(u32::MAX), Backoff::Park);
}

#[test]
fn declaration_info_holds_its_modes() {
    let info = StaticInfo {
        variable_name: "V1",
        file_name: "macro.rs",
        line: 12,
        column: 1,
        init_mode: InitMode::ProgramConstructor(10),
        drop_mode: FinalyMode::Finalize,
    };
    assert_eq!(info.init_mode, InitMode::ProgramConstructor(10));
    assert_eq!(info.drop_mode, FinalyMode::Finalize);
    assert_eq!(CyclicPanic, CyclicPanic);
}
