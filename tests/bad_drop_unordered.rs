use static_init::phase::Flag;
use static_init::priority::shutdown_order;
use static_init::{FinalyMode, Phase};

// Two objects dropped in the same priority slot have no order that a drop
// could rely on; the one dropped second finds the other already finalized.
#[test]
fn bad_drop_unordered() {
    let modes = vec![FinalyMode::ProgramDestructor(10), FinalyMode::ProgramDestructor(10)];
    let order = shutdown_order(&modes);
    assert_eq!(order.len(), 2);
    let mut phases = vec![Phase::new(), Phase::new()];
    for &k in &order {
        if k == 1 {
            // The drop of the second object reads the first one.
            assert_eq!(phases[0].finalized(), order[0] == 0);
        }
        phases[k] = phases[k].with(Flag::Finalized);
    }
    assert!(phases[0].finalized() && phases[1].finalized());
}
