//! The coordinator of a search: it plans the workers before they start and
//! picks the best of what they report once all of them have stopped.

use vstd::prelude::*;
use crate::partition::{
    SearchError, Slot, in_order, lemma_planned_in_order, plan_search, planned, rising,
};
use crate::platform::{enumerate_cores, logical_cores};
use crate::search::{Candidate, PartitionReport};

verus! {

/// The result of a whole search: the best candidate of all workers and the
/// span of nonces that its worker explored.
#[derive(Clone, Copy, Debug)]
pub struct BestResult {
    /// The best candidate; none where no worker observed one.
    pub best: Option<Candidate>,
    /// The first nonce of the winning worker's range.
    pub start: u64,
    /// The last nonce that the winning worker tried.
    pub last_tried: u64,
}

/// How a candidate that may be missing ranks: by its difficulty, and below
/// every candidate where there is none.
pub open spec fn rank(best: Option<Candidate>) -> int {
    match best {
        Some(c) => c.difficulty as int,
        None => -1,
    }
}

/// The rank of what worker `k` reported.
pub open spec fn reported(reports: Seq<PartitionReport>, k: int) -> int {
    rank(reports[k].best)
}

/// Whether worker `k` wins: no worker reports a higher difficulty, and every
/// worker before it reports a lower one.
pub open spec fn wins(reports: Seq<PartitionReport>, k: int) -> bool {
    &&& 0 <= k < reports.len()
    &&& forall|j: int| 0 <= j < reports.len() ==> #[trigger] reported(reports, j) <= reported(reports, k)
    &&& forall|j: int| 0 <= j < k ==> #[trigger] reported(reports, j) < reported(reports, k)
}

/// The index of the winning worker: the first one of the highest difficulty.
pub open spec fn winner(reports: Seq<PartitionReport>) -> int
    decreases reports.len(),
{
    if reports.len() <= 1 {
        0
    } else {
        let before = winner(reports.drop_last());
        if rank(reports.last().best) > rank(reports[before].best) {
            reports.len() - 1
        } else {
            before
        }
    }
}

/// The result that stands for the report of one worker.
pub open spec fn result_of(report: PartitionReport) -> BestResult {
    BestResult { best: report.best, start: report.start, last_tried: report.last_tried }
}

/// The difficulty of the merged result is the highest that any worker
/// reported, and among workers of that difficulty the one with the lowest
/// index is taken.
pub proof fn lemma_winner_wins(reports: Seq<PartitionReport>)
    requires
        reports.len() > 0,
    ensures
        wins(reports, winner(reports)),
    decreases reports.len(),
{
    if reports.len() > 1 {
        let front = reports.drop_last();
        lemma_winner_wins(front);
        let before = winner(front);
        let k = winner(reports);
        assert forall|j: int| 0 <= j < reports.len() implies #[trigger] reported(reports, j)
            <= reported(reports, k) by {
            if j < front.len() {
                assert(reported(front, j) <= reported(front, before));
            }
        }
        assert forall|j: int| 0 <= j < k implies #[trigger] reported(reports, j) < reported(
            reports,
            k,
        ) by {
            if k == before {
                assert(reported(front, j) < reported(front, before));
            } else {
                assert(reported(front, j) <= reported(front, before));
            }
        }
    }
}

/// Only one worker wins.
pub proof fn lemma_winner_unique(reports: Seq<PartitionReport>, k: int)
    requires
        wins(reports, k),
    ensures
        k == winner(reports),
{
    lemma_winner_wins(reports);
    let w = winner(reports);
    if k < w {
        assert(reported(reports, k) < reported(reports, w));
        assert(reported(reports, w) <= reported(reports, k));
    } else if w < k {
        assert(reported(reports, w) < reported(reports, k));
        assert(reported(reports, k) <= reported(reports, w));
    }
}

/// Where the reports stand in the order of their ranges, the winner is the
/// worker with the lowest range among those of the highest difficulty.
pub proof fn lemma_winner_has_the_lowest_range(reports: Seq<PartitionReport>, j: int)
    requires
        0 <= j < reports.len(),
        forall|a: int, b: int| 0 <= a < b < reports.len() ==> reports[a].start < reports[b].start,
        reported(reports, j) == reported(reports, winner(reports)),
    ensures
        reports[winner(reports)].start <= reports[j].start,
{
    lemma_winner_wins(reports);
    let w = winner(reports);
    if j < w {
        assert(reported(reports, j) < reported(reports, w));
    }
}

impl BestResult {
    /// The result of a search in which no worker ran.
    pub fn empty() -> (res: BestResult)
        ensures
            res == (BestResult { best: None, start: 0, last_tried: 0 }),
    {
        BestResult { best: None, start: 0, last_tried: 0 }
    }

    /// The difficulty of the result: that of its candidate, and zero where
    /// none was observed.
    pub fn difficulty(&self) -> (bits: u32)
        ensures
            bits == match self.best {
                Some(c) => c.difficulty,
                None => 0,
            },
    {
        match self.best {
            Some(c) => c.difficulty,
            None => 0,
        }
    }

    /// Whether the result is good enough to be submitted: a candidate was
    /// observed, and its difficulty is at least `min_difficulty`.
    pub fn meets(&self, min_difficulty: u32) -> (enough: bool)
        ensures
            enough == (self.best is Some && self.best->0.difficulty >= min_difficulty),
    {
        match self.best {
            Some(c) => c.difficulty >= min_difficulty,
            None => false,
        }
    }
}

/// Whether one candidate ranks above another.
fn outranks(a: &Option<Candidate>, b: &Option<Candidate>) -> (above: bool)
    ensures
        above == (rank(*a) > rank(*b)),
{
    match (a, b) {
        (Some(x), Some(y)) => x.difficulty > y.difficulty,
        (Some(_), None) => true,
        (None, _) => false,
    }
}

/// Picks the best of what the workers report, in the order of their
/// partitions: the first report of the highest difficulty, where a worker
/// that observed no candidate ranks below every worker that did. Without any
/// report the result is the empty one.
pub fn merge_reports(reports: &Vec<PartitionReport>) -> (res: BestResult)
    ensures
        reports@.len() == 0 ==> res == (BestResult { best: None, start: 0, last_tried: 0 }),
        reports@.len() > 0 ==> res == result_of(reports@[winner(reports@)]),
        reports@.len() > 0 ==> wins(reports@, winner(reports@)),
{
    if reports.len() == 0 {
        return BestResult::empty();
    }
    let mut best: usize = 0;
    let mut i: usize = 1;
    assert(reports@.take(1).len() == 1);
    while i < reports.len()
        invariant
            1 <= i <= reports.len(),
            best < i,
            best == winner(reports@.take(i as int)),
        decreases reports.len() - i,
    {
        proof {
            let now = reports@.take(i + 1);
            assert(now.drop_last() == reports@.take(i as int));
            assert(now.last() == reports@[i as int]);
            assert(now[best as int] == reports@[best as int]);
        }
        if outranks(&reports[i].best, &reports[best].best) {
            best = i;
        }
        i += 1;
    }
    proof {
        assert(reports@.take(reports.len() as int) == reports@);
        lemma_winner_wins(reports@);
    }
    let report = &reports[best];
    BestResult { best: report.best, start: report.start, last_tried: report.last_tried }
}

/// The warning that a core budget calls for on a machine with `available`
/// cores: that number, where the budget asks for more.
pub open spec fn warning_for(budget: u64, available: usize) -> Option<usize> {
    if budget > available {
        Some(available)
    } else {
        None
    }
}

/// The warning that a core budget calls for: the number of cores that are
/// there, where the budget asks for more.
pub fn budget_warning(budget: u64, available: usize) -> (warning: Option<usize>)
    ensures
        warning == warning_for(budget, available),
{
    if budget > count_of(available) {
        Some(available)
    } else {
        None
    }
}

/// Holds a core budget against this machine: the number of its cores, where
/// the budget asks for more. The machine has some number of cores, at least
/// one, and the warning is the one that this number calls for: a budget of
/// one core or none never draws a warning, a budget beyond what any machine
/// can count always does.
pub fn check_budget(budget: u64) -> (warning: Option<usize>)
    ensures
        exists|available: usize|
            available >= 1 && warning == #[trigger] warning_for(budget, available),
{
    let available = logical_cores();
    let warning = budget_warning(budget, available);
    assert(warning == warning_for(budget, available));
    warning
}

/// Plans a search on this machine: one slot for each core below the budget
/// on which the process may run, in the order of the cores, so that no two
/// slots share a core or a nonce. Fails where the system does not tell the
/// cores, so that no search runs without workers unnoticed.
pub fn plan_on_this_machine(budget: u64) -> (res: Result<Vec<Slot>, SearchError>)
    ensures
        res matches Ok(slots) ==> in_order(slots@) && exists|ids: Seq<usize>|
            rising(ids) && slots@ == #[trigger] planned(ids, budget),
        res matches Err(e) ==> e == SearchError::CoreEnumeration,
{
    let cores = enumerate_cores();
    let ghost ids = if cores is Some {
        cores->Some_0@
    } else {
        Seq::empty()
    };
    let res = plan_search(cores, budget);
    proof {
        if res is Ok {
            lemma_planned_in_order(ids, budget);
            assert(res->Ok_0@ == planned(ids, budget));
        }
    }
    res
}

/// A count of cores as a 64-bit number.
fn count_of(n: usize) -> (wide: u64)
    ensures
        wide == n,
{
    n as u64
}

} // verus!
