//! How the 64-bit nonce space is divided among the workers of one search.
//!
//! A search with a core budget of `parts` cuts the space `[0, u64::MAX)` into
//! `parts` consecutive ranges. Every range but the last is
//! `u64::MAX / parts` nonces wide; the last one also takes what the division
//! leaves over. A worker is started for every enumerated core whose id is
//! below the budget, and works on the range with that index.

use vstd::prelude::*;

verus! {

/// A half-open interval `[start, end)` of nonces.
#[derive(Clone, Copy, Debug, PartialEq, Eq, Structural)]
pub struct NonceRange {
    pub start: u64,
    pub end: u64,
}

impl NonceRange {
    /// Whether `nonce` lies in the interval.
    pub open spec fn contains(self, nonce: int) -> bool {
        self.start <= nonce < self.end
    }
}

/// One worker of a search: the core it is pinned to and the range it explores.
#[derive(Clone, Copy, Debug, PartialEq, Eq, Structural)]
pub struct Slot {
    pub core: usize,
    pub range: NonceRange,
}

/// Why a search could not be set up.
#[derive(Clone, Copy, Debug, PartialEq, Eq, Structural)]
pub enum SearchError {
    /// The platform could not say which cores this process may run on.
    CoreEnumeration,
}

/// Width of every range but the last when the space is cut in `parts`.
pub open spec fn stride(parts: int) -> int {
    (u64::MAX as int) / parts
}

/// First nonce of range `index` out of `parts`.
pub open spec fn range_start(index: int, parts: int) -> int {
    stride(parts) * index
}

/// One past the last nonce of range `index` out of `parts`.
pub open spec fn range_end(index: int, parts: int) -> int {
    if index == parts - 1 {
        u64::MAX as int
    } else {
        stride(parts) * (index + 1)
    }
}

/// Range `index` out of `parts`, as a value.
pub open spec fn range_of(index: int, parts: int) -> NonceRange {
    NonceRange { start: range_start(index, parts) as u64, end: range_end(index, parts) as u64 }
}

/// The slot of core `core` under a budget of `budget` cores.
pub open spec fn slot_of(core: usize, budget: u64) -> Slot {
    Slot { core, range: range_of(core as int, budget as int) }
}

/// The slots of a search: the enumerated cores below the budget, in the order
/// in which they were enumerated, each with the range of its own index.
pub open spec fn planned(core_ids: Seq<usize>, budget: u64) -> Seq<Slot> {
    core_ids.filter(|c: usize| c < budget).map_values(|c: usize| slot_of(c, budget))
}

/// Whether core ids stand in strictly rising order.
pub open spec fn rising(core_ids: Seq<usize>) -> bool {
    forall|a: int, b: int| 0 <= a < b < core_ids.len() ==> core_ids[a] < core_ids[b]
}

/// Whether slots stand in the order of their ranges: every slot has a higher
/// core than the ones before it, and its range begins where theirs have
/// ended, so that no two slots share a core or a nonce.
pub open spec fn in_order(slots: Seq<Slot>) -> bool {
    forall|a: int, b: int|
        0 <= a < b < slots.len() ==> (#[trigger] slots[a]).core < (#[trigger] slots[b]).core
            && slots[a].range.end <= slots[b].range.start
}

/// The bounds of every range fit in a `u64` and are ordered.
pub proof fn lemma_range_bounds(index: int, parts: int)
    requires
        0 <= index < parts,
    ensures
        0 <= range_start(index, parts) <= range_end(index, parts) <= u64::MAX,
        parts <= u64::MAX ==> range_start(index, parts) < range_end(index, parts),
{
    let w = stride(parts);
    assert(0 <= w && w * parts <= u64::MAX && (parts <= u64::MAX ==> w >= 1)) by (nonlinear_arith)
        requires
            w == (u64::MAX as int) / parts,
            parts >= 1,
    ;
    assert(0 <= w * index && w * index <= w * (index + 1) && w * (index + 1) <= w * parts
        && (w >= 1 ==> w * index < w * (index + 1))) by (nonlinear_arith)
        requires
            0 <= w,
            0 <= index < parts,
    ;
}

/// Consecutive ranges touch: each one ends where the next begins.
pub proof fn lemma_ranges_adjacent(index: int, parts: int)
    requires
        0 <= index,
        index + 1 < parts,
    ensures
        range_end(index, parts) == range_start(index + 1, parts),
{
}

/// Two different ranges of one division share no nonce.
pub proof fn lemma_ranges_disjoint(i: int, j: int, parts: int, nonce: int)
    requires
        0 <= i < j < parts,
    ensures
        range_end(i, parts) <= range_start(j, parts),
        !(range_of(i, parts).contains(nonce) && range_of(j, parts).contains(nonce)),
{
    let w = stride(parts);
    lemma_range_bounds(i, parts);
    lemma_range_bounds(j, parts);
    assert(w * (i + 1) <= w * j) by (nonlinear_arith)
        requires
            0 <= w,
            i + 1 <= j,
    ;
}

/// The ranges of one division together are the whole space `[0, u64::MAX)`:
/// every nonce below `u64::MAX` lies in the range that this lemma returns.
pub proof fn lemma_ranges_cover(parts: int, nonce: int) -> (index: int)
    requires
        1 <= parts <= u64::MAX,
        0 <= nonce < u64::MAX,
    ensures
        0 <= index < parts,
        range_of(index, parts).contains(nonce),
{
    let w = stride(parts);
    assert(w >= 1 && w * parts <= u64::MAX) by (nonlinear_arith)
        requires
            w == (u64::MAX as int) / parts,
            1 <= parts <= u64::MAX,
    ;
    let q = nonce / w;
    assert(0 <= q && w * q <= nonce < w * (q + 1)) by (nonlinear_arith)
        requires
            q == nonce / w,
            w >= 1,
            nonce >= 0,
    ;
    let index = if q < parts - 1 {
        q
    } else {
        parts - 1
    };
    lemma_range_bounds(index, parts);
    if q >= parts - 1 {
        assert(w * (parts - 1) <= w * q) by (nonlinear_arith)
            requires
                0 <= w,
                parts - 1 <= q,
        ;
    }
    index
}

/// The first `used` ranges of a division together are `[0, stride * used)`,
/// or the whole space when all of them are used.
pub proof fn lemma_used_ranges_cover(parts: int, used: int, nonce: int) -> (index: int)
    requires
        1 <= used <= parts <= u64::MAX,
        0 <= nonce < range_end(used - 1, parts),
    ensures
        0 <= index < used,
        range_of(index, parts).contains(nonce),
{
    lemma_range_bounds(used - 1, parts);
    let index = lemma_ranges_cover(parts, nonce);
    if index >= used {
        lemma_range_bounds(index, parts);
        if used - 1 < index {
            lemma_ranges_disjoint(used - 1, index, parts, nonce);
        }
    }
    index
}

/// The slots that are planned for cores in rising order stand in the order
/// of their ranges, each with a core below the budget and the range of its
/// core: no two of them share a core or a nonce.
pub proof fn lemma_planned_in_order(core_ids: Seq<usize>, budget: u64)
    requires
        rising(core_ids),
    ensures
        in_order(planned(core_ids, budget)),
        forall|k: int|
            0 <= k < planned(core_ids, budget).len() ==> {
                let slot = #[trigger] planned(core_ids, budget)[k];
                &&& slot.core < budget
                &&& slot == slot_of(slot.core, budget)
                &&& core_ids.len() > 0 && slot.core <= core_ids.last()
            },
    decreases core_ids.len(),
{
    let keep = |c: usize| c < budget;
    let make = |c: usize| slot_of(c, budget);
    if core_ids.len() == 0 {
        assert(core_ids.filter(keep) =~= Seq::<usize>::empty()) by {
            reveal(Seq::filter);
        }
    } else {
        let front = core_ids.drop_last();
        let last = core_ids.last();
        lemma_planned_in_order(front, budget);
        assert(core_ids.filter(keep) == if keep(last) {
            front.filter(keep).push(last)
        } else {
            front.filter(keep)
        }) by {
            reveal(Seq::filter);
        }
        let before = planned(front, budget);
        let now = planned(core_ids, budget);
        if keep(last) {
            assert(now =~= before.push(slot_of(last, budget)));
            assert forall|k: int| 0 <= k < before.len() implies (#[trigger] before[k]).core < last by {
                assert(front.len() > 0 && before[k].core <= front.last());
                assert(front.last() == core_ids[core_ids.len() - 2]);
            }
            assert forall|a: int, b: int| 0 <= a < b < now.len() implies (#[trigger] now[a]).core < (
            #[trigger] now[b]).core && now[a].range.end <= now[b].range.start by {
                if b < before.len() {
                    assert(before[a].core < before[b].core);
                } else {
                    assert(now[a] == before[a]);
                    assert(before[a].core < last);
                }
                let i = now[a].core as int;
                let j = now[b].core as int;
                lemma_range_bounds(i, budget as int);
                lemma_range_bounds(j, budget as int);
                lemma_ranges_disjoint(i, j, budget as int, 0);
            }
        } else {
            assert(now =~= before);
            assert forall|k: int| 0 <= k < now.len() implies (#[trigger] now[k]).core <= last by {
                assert(front.len() > 0 && before[k].core <= front.last());
                assert(front.last() == core_ids[core_ids.len() - 2]);
            }
        }
    }
}

/// The range that worker `index` out of `parts` explores.
pub fn partition_range(index: u64, parts: u64) -> (range: NonceRange)
    requires
        index < parts,
    ensures
        range == range_of(index as int, parts as int),
        range.start == range_start(index as int, parts as int),
        range.end == range_end(index as int, parts as int),
        range.start < range.end,
{
    proof {
        lemma_range_bounds(index as int, parts as int);
        if index + 1 < parts {
            lemma_range_bounds(index + 1, parts as int);
        }
    }
    let width: u64 = u64::MAX / parts;
    let start: u64 = width * index;
    let end: u64 = if index == parts - 1 {
        u64::MAX
    } else {
        width * (index + 1)
    };
    NonceRange { start, end }
}

/// The slots of a search over the cores `core_ids` with a budget of `budget`
/// cores: one for each core whose id is below the budget.
pub fn plan_partitions(core_ids: &Vec<usize>, budget: u64) -> (slots: Vec<Slot>)
    ensures
        slots@ == planned(core_ids@, budget),
{
    let mut slots: Vec<Slot> = Vec::new();
    let mut i: usize = 0;
    while i < core_ids.len()
        invariant
            i <= core_ids.len(),
            slots@ == planned(core_ids@.take(i as int), budget),
        decreases core_ids.len() - i,
    {
        let core: usize = core_ids[i];
        proof {
            let keep = |c: usize| c < budget;
            let before = core_ids@.take(i as int);
            assert(core_ids@.take(i + 1) == before.push(core));
            assert(before.push(core).drop_last() == before);
            reveal(Seq::filter);
            assert(before.push(core).filter(keep) == if keep(core) {
                before.filter(keep).push(core)
            } else {
                before.filter(keep)
            });
        }
        if index_of(core) < budget {
            let range = partition_range(index_of(core), budget);
            slots.push(Slot { core, range });
        }
        i += 1;
    }
    proof {
        assert(core_ids@.take(core_ids.len() as int) == core_ids@);
    }
    slots
}

/// The slots of a search, or the error that stops it before any worker runs:
/// without the list of cores no search is started.
pub fn plan_search(core_ids: Option<Vec<usize>>, budget: u64) -> (res: Result<Vec<Slot>, SearchError>)
    ensures
        core_ids is None ==> res == Err::<Vec<Slot>, SearchError>(SearchError::CoreEnumeration),
        core_ids matches Some(ids) ==> res is Ok && res->Ok_0@ == planned(ids@, budget),
{
    match core_ids {
        None => Err(SearchError::CoreEnumeration),
        Some(ids) => Ok(plan_partitions(&ids, budget)),
    }
}

/// A core id as a partition index.
fn index_of(core: usize) -> (index: u64)
    ensures
        index == core,
{
    core as u64
}

} // verus!
