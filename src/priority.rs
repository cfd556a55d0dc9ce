//! The order in which priority-declared objects are built at startup and
//! finalized at shutdown.
//!
//! The platform's loader runs the functions of the priority sections in the
//! order of their names; this module states that order over the objects'
//! declared modes. At startup, an object of a higher priority is built
//! first, and eager objects without priority come after all of them. At
//! shutdown the order is the reverse: destructors without priority first,
//! then by ascending priority.
use vstd::prelude::*;

verus! {

/// How an object is initialized.
#[derive(Clone, Copy, Debug, PartialEq, Eq, Structural)]
pub enum InitMode {
    /// Constant: nothing runs.
    Const,
    /// At first access.
    Lazy,
    /// At startup in the slot without priority, or at first access where
    /// that comes first.
    QuasiLazy,
    /// At startup, in the slot of the given priority.
    ProgramConstructor(u16),
}

/// How an object is finalized.
#[derive(Clone, Copy, Debug, PartialEq, Eq, Structural)]
pub enum FinalyMode {
    /// Never finalized.
    Never,
    /// Dropped at program exit, in the slot without priority.
    Drop,
    /// Finalized at program exit through the process-exit registry, after
    /// every slot of the priority sections.
    Finalize,
    /// Dropped at program exit, in the slot of the given priority.
    ProgramDestructor(u16),
}

/// The rank of an object in the startup order, if it is built at startup:
/// higher ranks run first.
pub open spec fn startup_rank(m: InitMode) -> Option<u32> {
    match m {
        InitMode::ProgramConstructor(p) => Some((p + 1) as u32),
        InitMode::QuasiLazy => Some(0u32),
        _ => None,
    }
}

/// The rank of an object in the order of the shutdown slots, if it has one:
/// higher ranks run first.
pub open spec fn shutdown_rank(m: FinalyMode) -> Option<u32> {
    match m {
        FinalyMode::Drop => Some(65536u32),
        FinalyMode::ProgramDestructor(p) => Some((65535 - p) as u32),
        _ => None,
    }
}

/// Index `a` comes before index `b`: a higher rank, or the same rank and a
/// smaller index.
pub open spec fn before(ranks: Seq<Option<u32>>, a: usize, b: usize) -> bool {
    let x = ranks[a as int]->0;
    let y = ranks[b as int]->0;
    x > y || (x == y && a < b)
}

/// `order` lists each index of `ranks` that has a rank exactly once, from
/// the highest rank to the lowest, and those of equal rank in increasing
/// index order.
pub open spec fn ranked(ranks: Seq<Option<u32>>, order: Seq<usize>) -> bool {
    &&& order.no_duplicates()
    &&& forall|i: int| 0 <= i < order.len() ==> #[trigger] order[i] < ranks.len() && ranks[order[i] as int] is Some
    &&& forall|k: int| 0 <= k < ranks.len() && ranks[k] is Some ==> order.contains(k as usize)
    &&& forall|i: int, j: int|
        0 <= i < j < order.len() ==> #[trigger] before(ranks, order[i], order[j])
}

pub open spec fn startup_ranks(modes: Seq<InitMode>) -> Seq<Option<u32>> {
    modes.map_values(|m: InitMode| startup_rank(m))
}

pub open spec fn shutdown_ranks(modes: Seq<FinalyMode>) -> Seq<Option<u32>> {
    modes.map_values(|m: FinalyMode| shutdown_rank(m))
}

/// The indices that have a rank, by decreasing rank, those of equal rank in
/// increasing index order.
pub fn ranked_order(ranks: &Vec<Option<u32>>) -> (r: Vec<usize>)
    ensures
        ranked(ranks@, r@),
{
    let mut order: Vec<usize> = Vec::new();
    let n = ranks.len();
    let mut k: usize = 0;
    while k < n
        invariant
            n == ranks@.len(),
            k <= n,
            order@.no_duplicates(),
            forall|i: int| 0 <= i < order@.len() ==> #[trigger] order@[i] < k && ranks@[order@[i] as int] is Some,
            forall|q: int| 0 <= q < k && ranks@[q] is Some ==> order@.contains(q as usize),
            forall|i: int, j: int|
                0 <= i < j < order@.len() ==> #[trigger] before(ranks@, order@[i], order@[j]),
        decreases n - k,
    {
        if let Some(rk) = ranks[k] {
            let mut pos: usize = 0;
            while pos < order.len() && ranks[order[pos]].unwrap() >= rk
                invariant
                    n == ranks@.len(),
                    k < n,
                    ranks@[k as int] == Some(rk),
                    pos <= order@.len(),
                    forall|i: int| 0 <= i < order@.len() ==> #[trigger] order@[i] < k && ranks@[order@[i] as int] is Some,
                    forall|i: int| 0 <= i < pos ==> ranks@[#[trigger] order@[i] as int]->0 >= rk,
                decreases order@.len() - pos,
            {
                pos = pos + 1;
            }
            let ghost old_order = order@;
            order.insert(pos, k);
            proof {
                old_order.insert_ensures(pos as int, k);
                let o = order@;
                assert(!old_order.contains(k)) by {
                    if old_order.contains(k) {
                        let i = choose|i: int| 0 <= i < old_order.len() && old_order[i] == k;
                        assert(old_order[i] < k);
                    }
                }
                // the elements from `pos` on rank below `rk`
                assert forall|i: int| pos <= i < old_order.len() implies ranks@[#[trigger] old_order[i] as int]->0 < rk by {
                    if i > pos {
                        assert(before(ranks@, old_order[pos as int], old_order[i]));
                    }
                }
                assert forall|i: int| 0 <= i < o.len() implies #[trigger] o[i] < k + 1 && ranks@[o[i] as int] is Some by {
                    if i < pos {
                        assert(o[i] == old_order[i]);
                    } else if i > pos {
                        assert(o[i] == old_order[i - 1]);
                    }
                }
                assert forall|i: int, j: int| 0 <= i < j < o.len() implies o[i] != o[j] by {
                    if i < pos && j < pos {
                        assert(o[i] == old_order[i] && o[j] == old_order[j]);
                    } else if i < pos && j == pos {
                        assert(o[i] == old_order[i]);
                    } else if i < pos {
                        assert(o[i] == old_order[i] && o[j] == old_order[j - 1]);
                    } else if i == pos {
                        assert(o[j] == old_order[j - 1]);
                    } else {
                        assert(o[i] == old_order[i - 1] && o[j] == old_order[j - 1]);
                    }
                }
                assert forall|i: int, j: int| 0 <= i < j < o.len() implies #[trigger] before(ranks@, o[i], o[j]) by {
                    if i < pos && j < pos {
                        assert(o[i] == old_order[i] && o[j] == old_order[j]);
                    } else if i < pos && j == pos {
                        assert(o[i] == old_order[i]);
                        assert(old_order[i] < k);
                    } else if i < pos {
                        assert(o[i] == old_order[i] && o[j] == old_order[j - 1]);
                    } else if i == pos {
                        assert(o[j] == old_order[j - 1]);
                    } else {
                        assert(o[i] == old_order[i - 1] && o[j] == old_order[j - 1]);
                    }
                }
                assert forall|q: int| 0 <= q < k + 1 && ranks@[q] is Some implies o.contains(q as usize) by {
                    if q < k {
                        assert(old_order.contains(q as usize));
                        let i = choose|i: int| 0 <= i < old_order.len() && old_order[i] == q as usize;
                        if i < pos {
                            assert(o[i] == q as usize);
                        } else {
                            assert(o[i + 1] == q as usize);
                        }
                    } else {
                        assert(o[pos as int] == k);
                    }
                }
            }
        }
        k = k + 1;
    }
    order
}

fn startup_rank_of(m: InitMode) -> (r: Option<u32>)
    ensures
        r == startup_rank(m),
{
    match m {
        InitMode::ProgramConstructor(p) => Some(p as u32 + 1),
        InitMode::QuasiLazy => Some(0),
        _ => None,
    }
}

fn shutdown_rank_of(m: FinalyMode) -> (r: Option<u32>)
    ensures
        r == shutdown_rank(m),
{
    match m {
        FinalyMode::Drop => Some(65536),
        FinalyMode::ProgramDestructor(p) => Some(65535 - p as u32),
        _ => None,
    }
}

/// The objects built at startup, in the order in which they are built.
pub fn startup_order(modes: &Vec<InitMode>) -> (r: Vec<usize>)
    ensures
        ranked(startup_ranks(modes@), r@),
{
    let mut ranks: Vec<Option<u32>> = Vec::new();
    let mut i: usize = 0;
    while i < modes.len()
        invariant
            i <= modes@.len(),
            ranks@ == startup_ranks(modes@).take(i as int),
        decreases modes@.len() - i,
    {
        ranks.push(startup_rank_of(modes[i]));
        i = i + 1;
        assert(ranks@ =~= startup_ranks(modes@).take(i as int));
    }
    assert(ranks@ =~= startup_ranks(modes@));
    ranked_order(&ranks)
}

/// The objects dropped from the shutdown slots, in the order in which they
/// are dropped. Objects finalized through the process-exit registry come
/// after all of them.
pub fn shutdown_order(modes: &Vec<FinalyMode>) -> (r: Vec<usize>)
    ensures
        ranked(shutdown_ranks(modes@), r@),
{
    let mut ranks: Vec<Option<u32>> = Vec::new();
    let mut i: usize = 0;
    while i < modes.len()
        invariant
            i <= modes@.len(),
            ranks@ == shutdown_ranks(modes@).take(i as int),
        decreases modes@.len() - i,
    {
        ranks.push(shutdown_rank_of(modes[i]));
        i = i + 1;
        assert(ranks@ =~= shutdown_ranks(modes@).take(i as int));
    }
    assert(ranks@ =~= shutdown_ranks(modes@));
    ranked_order(&ranks)
}

/// Object `x` is built at startup strictly before object `y` by their
/// declarations: `x` has a priority, and `y` a lower one or none.
pub open spec fn outranks(x: InitMode, y: InitMode) -> bool {
    match (x, y) {
        (InitMode::ProgramConstructor(px), InitMode::ProgramConstructor(py)) => px > py,
        (InitMode::ProgramConstructor(_), InitMode::QuasiLazy) => true,
        _ => false,
    }
}

/// In an order that ranks objects for startup, an object declared with a
/// higher priority is built before one declared with a lower priority or
/// without priority: the latter's generator never finds the former
/// uninitialized.
pub proof fn lemma_higher_priority_first(modes: Seq<InitMode>, order: Seq<usize>, a: usize, b: usize)
    requires
        ranked(startup_ranks(modes), order),
        a < modes.len(),
        b < modes.len(),
        outranks(modes[a as int], modes[b as int]),
    ensures
        exists|i: int, j: int| 0 <= i < j < order.len() && order[i] == a && order[j] == b,
{
    let ranks = startup_ranks(modes);
    assert(ranks[a as int] is Some);
    assert(ranks[b as int] is Some);
    assert(order.contains(a));
    assert(order.contains(b));
    let i = choose|i: int| 0 <= i < order.len() && order[i] == a;
    let j = choose|j: int| 0 <= j < order.len() && order[j] == b;
    if j < i {
        assert(before(ranks, order[j], order[i]));
    }
    assert(i != j);
    assert(i < j);
}

} // verus!
