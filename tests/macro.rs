use static_init::priority::startup_order;
use static_init::InitMode;

// The declared objects, by index.
const V0: usize = 0;
const V2: usize = 1;
const V1: usize = 2;
const V3: usize = 3;
const V4: usize = 4;
const V5: usize = 5;
const V6: usize = 6;

fn modes() -> Vec<InitMode> {
    vec![
        InitMode::Lazy,
        InitMode::ProgramConstructor(20),
        InitMode::ProgramConstructor(10),
        InitMode::ProgramConstructor(20),
        InitMode::ProgramConstructor(10),
        InitMode::ProgramConstructor(5),
        InitMode::Lazy,
    ]
}

struct Program {
    modes: Vec<InitMode>,
    values: Vec<Option<i32>>,
}

impl Program {
    fn start() -> Program {
        let modes = modes();
        let mut p = Program { values: vec![None; modes.len()], modes };
        for k in startup_order(&p.modes) {
            let v = p.generate(k);
            p.values[k] = Some(v);
        }
        p
    }

    /// Reads an object as a generator does: an eager object must already be
    /// built, a lazy one is built now.
    fn read(&mut self, k: usize) -> i32 {
        match self.values[k] {
            Some(v) => v,
            None => {
                assert!(
                    matches!(self.modes[k], InitMode::Lazy),
                    "object {} read before it was built",
                    k
                );
                let v = self.generate(k);
                self.values[k] = Some(v);
                v
            }
        }
    }

    fn generate(&mut self, k: usize) -> i32 {
        match k {
            V0 => self.read(V1) - 5,
            V2 => 12,
            V1 => self.read(V2) - 2,
            V3 => 12,
            V4 => self.read(V2) - 2,
            V5 => self.read(V4) + 23,
            V6 => 33,
            _ => unreachable!(),
        }
    }
}

#[test]
fn dynamic_init() {
    let mut p = Program::start();
    assert_eq!(p.read(V0), 5);
    assert_eq!(p.read(V1), 10);
    assert_eq!(p.read(V2), 12);
    p.values[V2] = Some(8);
    assert_eq!(p.read(V2), 8);
    assert_eq!(p.read(V4), 10);
    assert_eq!(p.read(V3), 12);
    assert_eq!(p.read(V5), 33);
    assert_eq!(p.read(V6), 33);
}
