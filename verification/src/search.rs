//! The search of one worker: it walks its range of nonces, evaluates the
//! proof-of-work hash of each, and keeps the best candidate it has seen.

use vstd::prelude::*;
use vstd::bytes::{spec_u64_to_le_bytes, u64_to_le_bytes};
use std::sync::atomic::AtomicBool;
use crate::partition::{NonceRange, Slot};
use crate::platform::{clock_start, pin_to_core, request_stop, seconds_since, stop_requested};

verus! {

/// The scratch memory of the Equi-X solver, reused from nonce to nonce.
#[verifier::external_type_specification]
#[verifier::external_body]
pub struct ExSolverMemory(drillx::equix::SolverMemory);

/// What one evaluation of the hash gives: the 16-byte digest of the Equi-X
/// solution and the 32-byte hash whose leading zero bits are the difficulty.
#[derive(Clone, Copy, Debug)]
pub struct HashOutput {
    pub d: [u8; 16],
    pub h: [u8; 32],
}

/// A solution as the chain checks it: the digest and the nonce's eight bytes.
#[derive(Clone, Copy, Debug)]
pub struct Solution {
    pub d: [u8; 16],
    pub n: [u8; 8],
}

/// The result of one evaluation, with the nonce it was made from.
#[derive(Clone, Copy, Debug)]
pub struct Candidate {
    pub nonce: u64,
    pub digest: [u8; 16],
    pub hash: [u8; 32],
    pub difficulty: u32,
}

/// A candidate as a mathematical value.
pub struct CandidateView {
    pub nonce: u64,
    pub digest: Seq<u8>,
    pub hash: Seq<u8>,
    pub difficulty: nat,
}

impl View for Candidate {
    type V = CandidateView;

    open spec fn view(&self) -> CandidateView {
        CandidateView {
            nonce: self.nonce,
            digest: self.digest@,
            hash: self.hash@,
            difficulty: self.difficulty as nat,
        }
    }
}

/// What one worker hands back when it stops.
#[derive(Clone, Copy, Debug)]
pub struct PartitionReport {
    /// The best candidate of the nonces that were tried; none where no
    /// evaluation succeeded.
    pub best: Option<Candidate>,
    /// The first nonce of the worker's range.
    pub start: u64,
    /// The last nonce that was tried; `start` when none was.
    pub last_tried: u64,
    /// How many nonces were tried: `start`, `start + 1`, ... in turn.
    pub attempts: u64,
    /// Whether the worker stopped because its best candidate met the target.
    pub target_met: bool,
}

/// The view of a candidate that may be missing.
pub open spec fn candidate_view(best: Option<Candidate>) -> Option<CandidateView> {
    match best {
        Some(c) => Some(c@),
        None => None,
    }
}

/// The number of leading zero bits of a byte.
pub open spec fn byte_leading_zeros(b: u8) -> nat {
    if b >= 128 {
        0
    } else if b >= 64 {
        1
    } else if b >= 32 {
        2
    } else if b >= 16 {
        3
    } else if b >= 8 {
        4
    } else if b >= 4 {
        5
    } else if b >= 2 {
        6
    } else if b >= 1 {
        7
    } else {
        8
    }
}

/// The number of leading zero bits of a byte string: the difficulty of a hash.
pub open spec fn leading_zero_bits(bytes: Seq<u8>) -> nat
    decreases bytes.len(),
{
    if bytes.len() == 0 {
        0
    } else if bytes[0] == 0 {
        8 + leading_zero_bits(bytes.drop_first())
    } else {
        byte_leading_zeros(bytes[0])
    }
}

/// What `drillx::hash_with_memory` makes of a challenge and a nonce's bytes:
/// the digest and the hash, or nothing where the evaluation fails.
pub uninterp spec fn drillx_hash(challenge: Seq<u8>, nonce: Seq<u8>) -> Option<(Seq<u8>, Seq<u8>)>;

/// The evaluation of `nonce` under `challenge`.
pub open spec fn evaluation(challenge: Seq<u8>, nonce: u64) -> Option<(Seq<u8>, Seq<u8>)> {
    drillx_hash(challenge, spec_u64_to_le_bytes(nonce))
}

/// The difficulty that `nonce` reaches under `challenge`, where its
/// evaluation succeeds.
pub open spec fn difficulty_at(challenge: Seq<u8>, nonce: u64) -> Option<nat> {
    match evaluation(challenge, nonce) {
        Some((_, hash)) => Some(leading_zero_bits(hash)),
        None => None,
    }
}

/// The candidate that an evaluation of `nonce` with this digest and hash
/// makes.
pub open spec fn candidate_of(nonce: u64, digest: Seq<u8>, hash: Seq<u8>) -> CandidateView {
    CandidateView { nonce, digest, hash, difficulty: leading_zero_bits(hash) }
}

/// The best candidate after one more evaluation. The first evaluation that
/// succeeds gives the first candidate, whatever its difficulty; after that a
/// new one takes the place of the one held only where it is strictly more
/// difficult. A failed evaluation changes nothing.
pub open spec fn improved(
    best: Option<CandidateView>,
    nonce: u64,
    outcome: Option<(Seq<u8>, Seq<u8>)>,
) -> Option<CandidateView> {
    match outcome {
        Some((digest, hash)) => if best is Some && best->0.difficulty >= leading_zero_bits(hash) {
            best
        } else {
            Some(candidate_of(nonce, digest, hash))
        },
        None => best,
    }
}

/// The best candidate of the first `count` nonces from `start` on; none
/// where none of them has an evaluation.
pub open spec fn best_of(challenge: Seq<u8>, start: u64, count: nat) -> Option<CandidateView>
    decreases count,
{
    if count == 0 {
        None
    } else {
        let nonce = (start + count - 1) as u64;
        improved(best_of(challenge, start, (count - 1) as nat), nonce, evaluation(challenge, nonce))
    }
}

/// Whether a worker stops after its `count`-th nonce because the target is
/// met: that evaluation succeeded, and the best so far has the difficulty
/// asked for.
pub open spec fn target_met(challenge: Seq<u8>, start: u64, count: nat, min_difficulty: u32) -> bool {
    &&& count > 0
    &&& evaluation(challenge, (start + count - 1) as u64) is Some
    &&& best_of(challenge, start, count) is Some
    &&& best_of(challenge, start, count)->0.difficulty >= min_difficulty
}

/// Whether a worker goes on to its next nonce: no stop was seen, and the
/// time limit has not passed.
pub open spec fn continues(stop_seen: bool, elapsed: u64, time_limit: u64) -> bool {
    !stop_seen && elapsed < time_limit
}

/// Whether `report` is what a walk over `range` hands back: it tried
/// `attempts` nonces from the start of the range on, within the range; its
/// best candidate is the best of exactly those; it stopped on the target
/// exactly if the last of them met it, and none before did; and with a time
/// limit of zero it tried nothing.
pub open spec fn is_walk_of(
    report: PartitionReport,
    range: NonceRange,
    challenge: Seq<u8>,
    min_difficulty: u32,
    time_limit: u64,
) -> bool {
    &&& report.start == range.start
    &&& range.start <= range.end ==> report.attempts <= range.end - range.start
    &&& range.start > range.end ==> report.attempts == 0
    &&& time_limit == 0 ==> report.attempts == 0
    &&& report.last_tried == if report.attempts == 0 {
        range.start as int
    } else {
        range.start + report.attempts - 1
    }
    &&& candidate_view(report.best) == best_of(challenge, range.start, report.attempts as nat)
    &&& report.target_met == target_met(
        challenge,
        range.start,
        report.attempts as nat,
        min_difficulty,
    )
    &&& forall|count: nat|
        0 < count < report.attempts ==> !#[trigger] target_met(
            challenge,
            range.start,
            count,
            min_difficulty,
        )
}

/// A candidate was observed exactly if some nonce that was tried has an
/// evaluation.
pub proof fn lemma_best_is_observed(challenge: Seq<u8>, start: u64, count: nat)
    ensures
        best_of(challenge, start, count) is None <==> forall|k: nat|
            k < count ==> (#[trigger] evaluation(challenge, (start + k) as u64)) is None,
    decreases count,
{
    if count > 0 {
        lemma_best_is_observed(challenge, start, (count - 1) as nat);
        if best_of(challenge, start, count) is None {
            assert forall|k: nat| k < count implies (#[trigger] evaluation(
                challenge,
                (start + k) as u64,
            )) is None by {
                if k + 1 < count {
                } else {
                    assert(k == count - 1);
                }
            }
        } else {
            if best_of(challenge, start, (count - 1) as nat) is None {
                assert(evaluation(challenge, (start + (count - 1) as nat) as u64) is Some);
            }
        }
    }
}

/// The best candidate is at least as difficult as every nonce tried.
pub proof fn lemma_best_is_max(challenge: Seq<u8>, start: u64, count: nat, k: nat)
    requires
        k < count,
        start + count <= u64::MAX + 1,
    ensures
        difficulty_at(challenge, (start + k) as u64) matches Some(d) ==> best_of(
            challenge,
            start,
            count,
        ) is Some && d <= best_of(challenge, start, count)->0.difficulty,
    decreases count,
{
    if k + 1 < count {
        lemma_best_is_max(challenge, start, (count - 1) as nat, k);
    }
}

/// The best candidate is the first nonce that reaches its difficulty: it was
/// tried, its evaluation gives the candidate's digest, hash and difficulty, and
/// every nonce tried before it is strictly less difficult.
pub proof fn lemma_best_is_first(challenge: Seq<u8>, start: u64, count: nat) -> (k: nat)
    requires
        start + count <= u64::MAX + 1,
    ensures
        best_of(challenge, start, count) matches Some(best) ==> {
            &&& k < count
            &&& best.nonce == start + k
            &&& evaluation(challenge, best.nonce) == Some((best.digest, best.hash))
            &&& best.difficulty == leading_zero_bits(best.hash)
            &&& forall|j: nat|
                j < k ==> (#[trigger] difficulty_at(challenge, (start + j) as u64) matches Some(d)
                    ==> d < best.difficulty)
        },
    decreases count,
{
    if count == 0 {
        0
    } else {
        let nonce = (start + count - 1) as u64;
        let before = best_of(challenge, start, (count - 1) as nat);
        let k0 = lemma_best_is_first(challenge, start, (count - 1) as nat);
        match evaluation(challenge, nonce) {
            Some((_, h)) => {
                if before is Some && before->0.difficulty >= leading_zero_bits(h) {
                    k0
                } else {
                    assert forall|j: nat| j < count - 1 implies (#[trigger] difficulty_at(
                        challenge,
                        (start + j) as u64,
                    ) matches Some(d) ==> d < leading_zero_bits(h)) by {
                        lemma_best_is_max(challenge, start, (count - 1) as nat, j);
                    }
                    (count - 1) as nat
                }
            },
            None => k0,
        }
    }
}

/// With a target of zero a worker stops at the first evaluation that
/// succeeds: of the nonces it tried, none before the last has an evaluation,
/// and the target counts as met exactly when the last one has.
pub proof fn lemma_zero_target_stops_at_first_success(
    challenge: Seq<u8>,
    start: u64,
    attempts: nat,
)
    requires
        forall|count: nat| 0 < count < attempts ==> !#[trigger] target_met(challenge, start, count, 0),
    ensures
        forall|k: nat| k + 1 < attempts ==> (#[trigger] evaluation(challenge, (start + k) as u64)) is None,
        target_met(challenge, start, attempts, 0) <==> attempts > 0 && evaluation(
            challenge,
            (start + attempts - 1) as u64,
        ) is Some,
{
    assert forall|k: nat| k + 1 < attempts implies (#[trigger] evaluation(
        challenge,
        (start + k) as u64,
    )) is None by {
        assert(!target_met(challenge, start, k + 1, 0));
    }
}

/// `drillx::equix::SolverMemory::new`: fresh scratch memory.
pub assume_specification[ drillx::equix::SolverMemory::new ]() -> (memory:
    drillx::equix::SolverMemory);

/// `drillx::hash_with_memory`: the digest and hash of a challenge and a
/// nonce, which depend on these two alone; the memory is scratch space.
#[verifier::external_body]
pub(crate) fn evaluate(
    memory: &mut drillx::equix::SolverMemory,
    challenge: &[u8; 32],
    nonce: &[u8; 8],
) -> (out: Option<HashOutput>)
    ensures
        out matches Some(hx) ==> drillx_hash(challenge@, nonce@) == Some((hx.d@, hx.h@)),
        out is None ==> drillx_hash(challenge@, nonce@) is None,
{
    match drillx::hash_with_memory(memory, challenge, nonce) {
        Ok(hx) => Some(HashOutput { d: hx.d, h: hx.h }),
        Err(_) => None,
    }
}

/// The eight bytes of a nonce, lowest first.
pub fn nonce_bytes(nonce: u64) -> (bytes: [u8; 8])
    ensures
        bytes@ == spec_u64_to_le_bytes(nonce),
{
    let v = u64_to_le_bytes(nonce);
    let mut bytes: [u8; 8] = [0u8; 8];
    let mut i: usize = 0;
    while i < 8
        invariant
            i <= 8,
            v@.len() == 8,
            forall|j: int| 0 <= j < i ==> bytes@[j] == v@[j],
        decreases 8 - i,
    {
        bytes[i] = v[i];
        i += 1;
    }
    assert(bytes@ =~= v@);
    bytes
}

/// The number of leading zero bits of a byte.
fn leading_zeros_of(b: u8) -> (n: u32)
    ensures
        n == byte_leading_zeros(b),
{
    if b >= 128 {
        0
    } else if b >= 64 {
        1
    } else if b >= 32 {
        2
    } else if b >= 16 {
        3
    } else if b >= 8 {
        4
    } else if b >= 4 {
        5
    } else if b >= 2 {
        6
    } else if b >= 1 {
        7
    } else {
        8
    }
}

/// The difficulty of a hash: the number of its leading zero bits.
pub fn difficulty(hash: &[u8; 32]) -> (bits: u32)
    ensures
        bits == leading_zero_bits(hash@),
        bits <= 256,
{
    let mut bits: u32 = 0;
    let mut i: usize = 0;
    assert(hash@.skip(0) == hash@);
    while i < 32
        invariant
            i <= 32,
            hash@.len() == 32,
            bits == 8 * i,
            leading_zero_bits(hash@) == bits + leading_zero_bits(hash@.skip(i as int)),
        decreases 32 - i,
    {
        let b: u8 = hash[i];
        proof {
            let rest = hash@.skip(i as int);
            assert(rest[0] == b);
            assert(rest.drop_first() == hash@.skip(i + 1));
        }
        if b != 0 {
            return bits + leading_zeros_of(b);
        }
        bits += 8;
        i += 1;
    }
    bits
}

impl HashOutput {
    /// The difficulty of the hash.
    pub fn difficulty(&self) -> (bits: u32)
        ensures
            bits == leading_zero_bits(self.h@),
    {
        difficulty(&self.h)
    }
}

impl Candidate {
    /// The best candidate after the evaluation of `nonce` gave `outcome`. The
    /// first evaluation that succeeds gives the first candidate; after that
    /// the new one takes the place of `best` only where it is strictly more
    /// difficult.
    pub fn improve(best: Option<Candidate>, nonce: u64, outcome: Option<HashOutput>) -> (next:
        Option<Candidate>)
        ensures
            candidate_view(next) == improved(
                candidate_view(best),
                nonce,
                match outcome {
                    Some(hx) => Some((hx.d@, hx.h@)),
                    None => None,
                },
            ),
    {
        match outcome {
            Some(hx) => {
                let bits = hx.difficulty();
                let found = Candidate { nonce, digest: hx.d, hash: hx.h, difficulty: bits };
                match best {
                    Some(held) => if held.difficulty >= bits {
                        best
                    } else {
                        Some(found)
                    },
                    None => Some(found),
                }
            },
            None => best,
        }
    }

    /// The solution that is checked on chain: the digest and the nonce's
    /// bytes.
    pub fn solution(&self) -> (s: Solution)
        ensures
            s.d == self.digest,
            s.n@ == spec_u64_to_le_bytes(self.nonce),
    {
        Solution { d: self.digest, n: nonce_bytes(self.nonce) }
    }
}

/// Whether a worker goes on to its next nonce, given what it read from the
/// stop flag and from the clock: it stops when a stop was seen, and when the
/// seconds that have passed reach the time limit.
pub fn goes_on(stop_seen: bool, elapsed: u64, time_limit: u64) -> (go: bool)
    ensures
        go == continues(stop_seen, elapsed, time_limit),
{
    !stop_seen && elapsed < time_limit
}

/// Walks `range` from its start: evaluates each nonce in turn and keeps the
/// first candidate of the highest difficulty. The walk ends when the best
/// candidate meets `min_difficulty` after an evaluation that succeeded (the
/// flag `stop` is then raised for the other workers), when `stop` is seen
/// raised, when `time_limit` seconds have passed, or at the end of the range.
///
/// How many nonces are tried depends on the clock and on the other workers;
/// the report says how many were, and its candidate is the best of exactly
/// those.
pub fn search_partition(
    range: NonceRange,
    challenge: &[u8; 32],
    min_difficulty: u32,
    time_limit: u64,
    stop: &AtomicBool,
) -> (report: PartitionReport)
    ensures
        is_walk_of(report, range, challenge@, min_difficulty, time_limit),
{
    let mut memory = drillx::equix::SolverMemory::new();
    let started = clock_start();
    let mut best: Option<Candidate> = None;
    let mut attempts: u64 = 0;
    let mut nonce: u64 = range.start;
    let mut met: bool = false;
    while nonce < range.end
        invariant_except_break
            nonce == range.start + attempts,
            !met,
            forall|count: nat|
                0 < count <= attempts ==> !#[trigger] target_met(
                    challenge@,
                    range.start,
                    count,
                    min_difficulty,
                ),
        invariant
            range.start <= range.end ==> range.start + attempts <= range.end,
            range.start > range.end ==> attempts == 0,
            time_limit == 0 ==> attempts == 0,
            candidate_view(best) == best_of(challenge@, range.start, attempts as nat),
        ensures
            range.start <= range.end ==> range.start + attempts <= range.end,
            range.start > range.end ==> attempts == 0,
            time_limit == 0 ==> attempts == 0,
            candidate_view(best) == best_of(challenge@, range.start, attempts as nat),
            met == target_met(challenge@, range.start, attempts as nat, min_difficulty),
            forall|count: nat|
                0 < count < attempts ==> !#[trigger] target_met(
                    challenge@,
                    range.start,
                    count,
                    min_difficulty,
                ),
        decreases range.end - nonce,
    {
        let stop_seen = stop_requested(stop);
        let elapsed = seconds_since(&started);
        if !goes_on(stop_seen, elapsed, time_limit) {
            break ;
        }
        let bytes = nonce_bytes(nonce);
        let outcome = evaluate(&mut memory, challenge, &bytes);
        best = Candidate::improve(best, nonce, outcome);
        attempts += 1;
        let reached = match best {
            Some(held) => outcome.is_some() && held.difficulty >= min_difficulty,
            None => false,
        };
        if reached {
            request_stop(stop);
            met = true;
            break ;
        }
        nonce += 1;
    }
    let last_tried: u64 = if attempts == 0 {
        range.start
    } else {
        range.start + (attempts - 1)
    };
    PartitionReport { best, start: range.start, last_tried, attempts, target_met: met }
}

/// The search of one slot: the worker asks to be pinned to the slot's core,
/// which may fail without harm, and then walks the slot's range.
pub fn run_slot(
    slot: &Slot,
    challenge: &[u8; 32],
    min_difficulty: u32,
    time_limit: u64,
    stop: &AtomicBool,
) -> (report: PartitionReport)
    ensures
        is_walk_of(report, slot.range, challenge@, min_difficulty, time_limit),
{
    if slot.core < 1024 {
        let _ = pin_to_core(slot.core);
    }
    search_partition(slot.range, challenge, min_difficulty, time_limit, stop)
}

} // verus!
