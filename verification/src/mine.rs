//! The mining loop: fetch the challenge, search, submit what meets the
//! target, and validate for the pool when asked to.
//!
//! The loop is a state machine. Whoever runs it performs the action that a
//! step hands out and comes back with the event that tells how it went. The
//! machine never ends by itself; a cycle that is over starts the next one.

use vstd::prelude::*;
use vstd::bytes::spec_u64_to_le_bytes;
use vstd::string::*;
use crate::codec::{base58_text, encode_hash, encode_nonce, hex_text};
use crate::coordinator::{BestResult, check_budget, warning_for};
use crate::mining_history::{MiningPattern, MiningPatternView};
use crate::pool_client::{ValidationRequest, ValidationRequestView, request_view};
use crate::search::Candidate;
use crate::wire::{same_text, text_of};
use crate::utils::ProofState;
use crate::validation::{
    ActionView, Decoded, EventView, ValidationAction, ValidationEvent, ValidationWorkflow,
    WorkflowView, decodes, hash_id_of, is_terminal, lemma_step_reports_at_the_end, step, witness,
};

verus! {

/// How a node is asked to mine.
#[derive(Debug)]
pub struct MineArgs {
    /// The core budget: in how many parts the nonce space is cut, and the
    /// most workers that run.
    pub cores: u64,
    /// The seconds after which every worker stops.
    pub time_limit: u64,
    /// Where the pool listens.
    pub pool_url: String,
}

/// What a search is to be run with.
#[derive(Clone, Copy, Debug)]
pub struct SearchOrder {
    pub cores: u64,
    pub min_difficulty: u32,
    pub challenge: [u8; 32],
    pub time_limit: u64,
}

/// A result that met the target, ready to be kept and sent.
#[derive(Debug)]
pub struct Submission {
    /// What goes into the history.
    pub pattern: MiningPattern,
    /// The hash, in Base58.
    pub hash: String,
    pub difficulty: u32,
    /// The nonce's bytes, in hexadecimal.
    pub nonce: String,
}

/// Where the loop stands in its cycle.
#[derive(Debug)]
pub enum Phase {
    /// Not started.
    Idle,
    /// Waiting for the challenge of the epoch.
    Fetching,
    /// Waiting for the search under this target and this challenge.
    Searching(u32, [u8; 32]),
    /// Waiting for the submission to be sent.
    Submitting,
    /// Waiting to hear whether an assignment is pending.
    Polling,
    /// Validating an assignment.
    Validating(ValidationWorkflow),
    /// Waiting for the outcome of a validation to be sent.
    Reporting,
}

/// What the world tells the loop.
#[derive(Debug)]
pub enum Event {
    /// The loop may start.
    Start,
    /// The chain was read: the state of the proof, or why there is none.
    Challenge(Result<ProofState, String>),
    /// The search is over.
    Searched(BestResult),
    /// The submission was handed to the connection, or could not be.
    Submitted,
    /// The session was asked for its pending assignment.
    Polled(Option<ValidationRequest>),
    /// Something happened that the validation waits for.
    Validation(ValidationEvent),
    /// The outcome was handed to the connection, or could not be.
    Reported,
}

/// What the loop asks of the world.
#[derive(Debug)]
pub enum Action {
    /// Read the proof state from the chain.
    Fetch,
    /// Wait a while, then read the proof state again.
    BackOff,
    /// Run a search.
    Search(SearchOrder),
    /// Keep the pattern and send the hash to the pool.
    Submit(Submission),
    /// Ask the session for its pending assignment.
    Poll,
    /// Do what the validation asks for.
    Validation(ValidationAction),
    /// Nothing: the event was not for this phase.
    Nothing,
}

/// A submission as a mathematical value.
pub struct SubmissionView {
    pub pattern: MiningPatternView,
    pub hash: Seq<char>,
    pub difficulty: u32,
    pub nonce: Seq<char>,
}

/// A phase as a mathematical value.
pub enum PhaseView {
    Idle,
    Fetching,
    Searching(u32, Seq<u8>),
    Submitting,
    Polling,
    Validating(WorkflowView),
    Reporting,
}

/// The loop as a mathematical value: where it stands, and the hash id of the
/// assignment whose outcome it reported last.
pub struct LoopView {
    pub phase: PhaseView,
    pub reported: Option<Seq<char>>,
}

/// An event of the loop as a mathematical value.
pub enum LoopEventView {
    Start,
    Challenge(Result<ProofState, Seq<char>>),
    Searched(BestResult),
    Submitted,
    Polled(Option<ValidationRequestView>),
    Validation(EventView),
    Reported,
}

/// An action of the loop as a mathematical value.
pub enum LoopActionView {
    Fetch,
    BackOff,
    Search(SearchOrder),
    Submit(SubmissionView),
    Poll,
    Validation(ActionView),
    Nothing,
}

impl View for Submission {
    type V = SubmissionView;

    open spec fn view(&self) -> SubmissionView {
        SubmissionView {
            pattern: self.pattern@,
            hash: self.hash@,
            difficulty: self.difficulty,
            nonce: self.nonce@,
        }
    }
}

impl View for Phase {
    type V = PhaseView;

    open spec fn view(&self) -> PhaseView {
        match self {
            Phase::Idle => PhaseView::Idle,
            Phase::Fetching => PhaseView::Fetching,
            Phase::Searching(min, challenge) => PhaseView::Searching(*min, challenge@),
            Phase::Submitting => PhaseView::Submitting,
            Phase::Polling => PhaseView::Polling,
            Phase::Validating(w) => PhaseView::Validating(w@),
            Phase::Reporting => PhaseView::Reporting,
        }
    }
}

impl View for Event {
    type V = LoopEventView;

    open spec fn view(&self) -> LoopEventView {
        match self {
            Event::Start => LoopEventView::Start,
            Event::Challenge(Ok(proof)) => LoopEventView::Challenge(Ok(*proof)),
            Event::Challenge(Err(reason)) => LoopEventView::Challenge(Err(reason@)),
            Event::Searched(result) => LoopEventView::Searched(*result),
            Event::Submitted => LoopEventView::Submitted,
            Event::Polled(request) => LoopEventView::Polled(request_view(*request)),
            Event::Validation(e) => LoopEventView::Validation(e@),
            Event::Reported => LoopEventView::Reported,
        }
    }
}

impl View for Action {
    type V = LoopActionView;

    open spec fn view(&self) -> LoopActionView {
        match self {
            Action::Fetch => LoopActionView::Fetch,
            Action::BackOff => LoopActionView::BackOff,
            Action::Search(order) => LoopActionView::Search(*order),
            Action::Submit(submission) => LoopActionView::Submit(submission@),
            Action::Poll => LoopActionView::Poll,
            Action::Validation(a) => LoopActionView::Validation(a@),
            Action::Nothing => LoopActionView::Nothing,
        }
    }
}

/// What is kept and sent for a candidate that was found under `challenge` by
/// a worker that explored the span from `start` to `last_tried`: the pattern
/// of challenge, span and difficulty for the history, the hash in Base58,
/// and the bytes of the nonce in hexadecimal.
pub open spec fn submission_of(
    found: Candidate,
    start: u64,
    last_tried: u64,
    challenge: Seq<u8>,
) -> SubmissionView {
    SubmissionView {
        pattern: MiningPatternView {
            challenge,
            nonce_range: (start, last_tried),
            difficulty: found.difficulty,
        },
        hash: base58_text(found.hash@),
        difficulty: found.difficulty,
        nonce: hex_text(spec_u64_to_le_bytes(found.nonce)),
    }
}

/// Whether a result is submitted under a target: a candidate was observed,
/// and its difficulty is at least the target.
pub open spec fn meets_target(result: BestResult, min_difficulty: u32) -> bool {
    result.best is Some && result.best->0.difficulty >= min_difficulty
}

/// How the loop goes on after a step of the validation: where the
/// validation has ended it reports, and remembers the hash id that it
/// reports; where it has not, it stays with the validation.
pub open spec fn follow(
    result: (WorkflowView, ActionView),
    reported: Option<Seq<char>>,
) -> (LoopView, LoopActionView) {
    (
        if is_terminal(result.0) {
            LoopView { phase: PhaseView::Reporting, reported: Some(hash_id_of(result.0)) }
        } else {
            LoopView { phase: PhaseView::Validating(result.0), reported }
        },
        if result.1 is Nothing {
            LoopActionView::Nothing
        } else {
            LoopActionView::Validation(result.1)
        },
    )
}

/// One step of the loop: the state and the action that follow from a state
/// and an event, for a node with the budget `cores`, the limit `time_limit`
/// and the validator key `validator`, given what decoding the members of the
/// assignment at hand gives.
///
/// A pending assignment whose hash id is the one reported last was consumed
/// already; the loop passes it over and starts the next cycle.
pub open spec fn cycle(
    state: LoopView,
    event: LoopEventView,
    cores: u64,
    time_limit: u64,
    validator: Seq<u8>,
    decoded: Decoded,
) -> (LoopView, LoopActionView) {
    let reported = state.reported;
    match (state.phase, event) {
        (PhaseView::Idle, LoopEventView::Start) => (
            LoopView { phase: PhaseView::Fetching, reported },
            LoopActionView::Fetch,
        ),
        (PhaseView::Fetching, LoopEventView::Challenge(Ok(proof))) => (
            LoopView {
                phase: PhaseView::Searching(proof.min_difficulty, proof.challenge@),
                reported,
            },
            LoopActionView::Search(
                SearchOrder {
                    cores,
                    min_difficulty: proof.min_difficulty,
                    challenge: proof.challenge,
                    time_limit,
                },
            ),
        ),
        (PhaseView::Fetching, LoopEventView::Challenge(Err(_))) => (
            LoopView { phase: PhaseView::Fetching, reported },
            LoopActionView::BackOff,
        ),
        (PhaseView::Searching(min_difficulty, challenge), LoopEventView::Searched(result)) => if meets_target(
            result,
            min_difficulty,
        ) {
            (
                LoopView { phase: PhaseView::Submitting, reported },
                LoopActionView::Submit(
                    submission_of(result.best->0, result.start, result.last_tried, challenge),
                ),
            )
        } else {
            (LoopView { phase: PhaseView::Polling, reported }, LoopActionView::Poll)
        },
        (PhaseView::Submitting, LoopEventView::Submitted) => (
            LoopView { phase: PhaseView::Polling, reported },
            LoopActionView::Poll,
        ),
        (PhaseView::Polling, LoopEventView::Polled(None)) => (
            LoopView { phase: PhaseView::Fetching, reported },
            LoopActionView::Fetch,
        ),
        (PhaseView::Polling, LoopEventView::Polled(Some(request))) => if reported == Some(
            request.hash_id,
        ) {
            (LoopView { phase: PhaseView::Fetching, reported }, LoopActionView::Fetch)
        } else {
            follow(
                step(WorkflowView::Assigned(request), EventView::Begin, validator, decoded),
                reported,
            )
        },
        (PhaseView::Validating(workflow), LoopEventView::Validation(e)) => follow(
            step(workflow, e, validator, decoded),
            reported,
        ),
        (PhaseView::Reporting, LoopEventView::Reported) => (
            LoopView { phase: PhaseView::Fetching, reported },
            LoopActionView::Fetch,
        ),
        _ => (state, LoopActionView::Nothing),
    }
}

/// The assignment whose members a step may have to decode.
pub open spec fn request_at(phase: PhaseView, event: LoopEventView) -> Option<ValidationRequestView> {
    match (phase, event) {
        (PhaseView::Polling, LoopEventView::Polled(Some(request))) => Some(request),
        (PhaseView::Validating(WorkflowView::Assigned(request)), _) => Some(request),
        (PhaseView::Validating(WorkflowView::Building(request, _)), _) => Some(request),
        _ => None,
    }
}

/// The target, the challenge and the result of a search that ends with this
/// event.
pub open spec fn search_ended(phase: PhaseView, event: LoopEventView) -> Option<
    (u32, Seq<u8>, BestResult),
> {
    match (phase, event) {
        (PhaseView::Searching(min, challenge), LoopEventView::Searched(result)) => Some(
            (min, challenge, result),
        ),
        _ => None,
    }
}

/// Whether a state is one that the loop can be in: a validation that it
/// holds has not ended, and is not for the hash id that was reported last.
pub open spec fn well_formed(state: LoopView) -> bool {
    state.phase matches PhaseView::Validating(workflow) ==> !is_terminal(workflow) && state.reported
        != Some(hash_id_of(workflow))
}

/// The hash id that an action reports, if it is a report.
pub open spec fn report_of(action: LoopActionView) -> Option<Seq<char>> {
    match action {
        LoopActionView::Validation(ActionView::Report(outcome)) => Some(outcome.hash_id),
        _ => None,
    }
}

/// The loop stays well formed.
pub proof fn lemma_cycle_keeps_well_formed(
    state: LoopView,
    event: LoopEventView,
    cores: u64,
    time_limit: u64,
    validator: Seq<u8>,
    decoded: Decoded,
)
    requires
        well_formed(state),
    ensures
        well_formed(cycle(state, event, cores, time_limit, validator, decoded).0),
{
    match (state.phase, event) {
        (PhaseView::Polling, LoopEventView::Polled(Some(request))) => {
            lemma_step_reports_at_the_end(
                WorkflowView::Assigned(request),
                EventView::Begin,
                validator,
                decoded,
            );
        },
        (PhaseView::Validating(workflow), LoopEventView::Validation(e)) => {
            lemma_step_reports_at_the_end(workflow, e, validator, decoded);
        },
        _ => {},
    }
}

/// A result is submitted only where it meets the target of its epoch: the
/// loop hands out a submission exactly when a search ends with a candidate
/// that was observed and whose difficulty is at least the minimum that was
/// fetched with the challenge. The submission is that candidate's, and the
/// pattern for the history holds the challenge that was fetched. A result
/// below the target, and one without a candidate, is not submitted; the loop
/// goes on to poll.
pub proof fn lemma_submits_at_target_only(
    state: LoopView,
    event: LoopEventView,
    cores: u64,
    time_limit: u64,
    validator: Seq<u8>,
    decoded: Decoded,
)
    ensures
        ({
            let (next, action) = cycle(state, event, cores, time_limit, validator, decoded);
            &&& action is Submit <==> (search_ended(state.phase, event) matches Some(ended)
                && meets_target(ended.2, ended.0))
            &&& search_ended(state.phase, event) matches Some(ended) ==> if meets_target(
                ended.2,
                ended.0,
            ) {
                &&& action == LoopActionView::Submit(
                    submission_of(ended.2.best->0, ended.2.start, ended.2.last_tried, ended.1),
                )
                &&& action->Submit_0.pattern.challenge == ended.1
                &&& next.phase == PhaseView::Submitting
            } else {
                action == LoopActionView::Poll && next.phase == PhaseView::Polling
            }
        }),
{
}

/// The loop reports the outcome of a validation exactly when the validation
/// ends, and then waits in `Reporting`. What it reports bears a hash id other
/// than the one it reported last, and that hash id is the one it remembers
/// from then on; a step that reports nothing leaves what is remembered as it
/// is.
pub proof fn lemma_reports_when_validation_ends(
    state: LoopView,
    event: LoopEventView,
    cores: u64,
    time_limit: u64,
    validator: Seq<u8>,
    decoded: Decoded,
)
    requires
        well_formed(state),
    ensures
        ({
            let (next, action) = cycle(state, event, cores, time_limit, validator, decoded);
            &&& report_of(action) is Some <==> (next.phase is Reporting && !(state.phase
                is Reporting))
            &&& report_of(action) matches Some(hash_id) ==> state.reported != Some(hash_id)
                && next.reported == Some(hash_id)
            &&& report_of(action) is None ==> next.reported == state.reported
        }),
{
    match (state.phase, event) {
        (PhaseView::Polling, LoopEventView::Polled(Some(request))) => {
            lemma_step_reports_at_the_end(
                WorkflowView::Assigned(request),
                EventView::Begin,
                validator,
                decoded,
            );
        },
        (PhaseView::Validating(workflow), LoopEventView::Validation(e)) => {
            lemma_step_reports_at_the_end(workflow, e, validator, decoded);
        },
        _ => {},
    }
}

/// A pending assignment that was reported is not validated again: polled once
/// more, it starts the next cycle and nothing is reported.
pub proof fn lemma_reported_assignment_is_passed_over(
    reported: Seq<char>,
    request: ValidationRequestView,
    cores: u64,
    time_limit: u64,
    validator: Seq<u8>,
    decoded: Decoded,
)
    requires
        request.hash_id == reported,
    ensures
        cycle(
            LoopView { phase: PhaseView::Polling, reported: Some(reported) },
            LoopEventView::Polled(Some(request)),
            cores,
            time_limit,
            validator,
            decoded,
        ) == (
            LoopView { phase: PhaseView::Fetching, reported: Some(reported) },
            LoopActionView::Fetch,
        ),
{
}

/// One event of the loop together with what decoding gives when it arrives.
pub struct LoopStimulus {
    pub event: LoopEventView,
    pub decoded: Decoded,
}

/// The state of the loop after a sequence of events.
pub open spec fn run_loop(
    state: LoopView,
    stimuli: Seq<LoopStimulus>,
    cores: u64,
    time_limit: u64,
    validator: Seq<u8>,
) -> LoopView
    decreases stimuli.len(),
{
    if stimuli.len() == 0 {
        state
    } else {
        let last = stimuli.last();
        cycle(
            run_loop(state, stimuli.drop_last(), cores, time_limit, validator),
            last.event,
            cores,
            time_limit,
            validator,
            last.decoded,
        ).0
    }
}

/// The hash ids that the loop reports over a sequence of events, in the
/// order in which it reports them.
pub open spec fn report_log(
    state: LoopView,
    stimuli: Seq<LoopStimulus>,
    cores: u64,
    time_limit: u64,
    validator: Seq<u8>,
) -> Seq<Seq<char>>
    decreases stimuli.len(),
{
    if stimuli.len() == 0 {
        Seq::empty()
    } else {
        let last = stimuli.last();
        let before = report_log(state, stimuli.drop_last(), cores, time_limit, validator);
        match report_of(
            cycle(
                run_loop(state, stimuli.drop_last(), cores, time_limit, validator),
                last.event,
                cores,
                time_limit,
                validator,
                last.decoded,
            ).1,
        ) {
            Some(hash_id) => before.push(hash_id),
            None => before,
        }
    }
}

/// Over any sequence of events no hash id is reported twice running: a hash
/// id that was reported is not reported again before another one was, and the
/// first report is not for the hash id that the loop remembered at the start.
/// The loop remembers the hash id of its last report.
pub proof fn lemma_one_report_per_hash_id(
    state: LoopView,
    stimuli: Seq<LoopStimulus>,
    cores: u64,
    time_limit: u64,
    validator: Seq<u8>,
)
    requires
        well_formed(state),
    ensures
        ({
            let end = run_loop(state, stimuli, cores, time_limit, validator);
            let log = report_log(state, stimuli, cores, time_limit, validator);
            &&& well_formed(end)
            &&& log.len() == 0 ==> end.reported == state.reported
            &&& log.len() > 0 ==> end.reported == Some(log.last()) && state.reported != Some(log[0])
            &&& forall|i: int| 0 <= i < log.len() - 1 ==> #[trigger] log[i] != log[i + 1]
        }),
    decreases stimuli.len(),
{
    if stimuli.len() > 0 {
        let last = stimuli.last();
        let front = stimuli.drop_last();
        lemma_one_report_per_hash_id(state, front, cores, time_limit, validator);
        let before = run_loop(state, front, cores, time_limit, validator);
        lemma_cycle_keeps_well_formed(before, last.event, cores, time_limit, validator, last.decoded);
        lemma_reports_when_validation_ends(
            before,
            last.event,
            cores,
            time_limit,
            validator,
            last.decoded,
        );
    }
}

/// Whether every assignment that the events of a run bring bears the hash
/// id `hash_id`.
pub open spec fn polls_only(stimuli: Seq<LoopStimulus>, hash_id: Seq<char>) -> bool {
    forall|i: int|
        0 <= i < stimuli.len() ==> ((#[trigger] stimuli[i]).event matches LoopEventView::Polled(
            Some(request),
        ) ==> request.hash_id == hash_id)
}

/// An assignment yields one outcome and never more: as long as the session
/// holds the same assignment, however often the loop polls it and whatever
/// else happens, the loop reports at most once, and what it reports is for
/// that assignment.
pub proof fn lemma_one_outcome_per_assignment(
    state: LoopView,
    stimuli: Seq<LoopStimulus>,
    hash_id: Seq<char>,
    cores: u64,
    time_limit: u64,
    validator: Seq<u8>,
)
    requires
        well_formed(state),
        state.phase matches PhaseView::Validating(workflow) ==> hash_id_of(workflow) == hash_id,
        polls_only(stimuli, hash_id),
    ensures
        ({
            let end = run_loop(state, stimuli, cores, time_limit, validator);
            let log = report_log(state, stimuli, cores, time_limit, validator);
            &&& log.len() <= 1
            &&& forall|i: int| 0 <= i < log.len() ==> #[trigger] log[i] == hash_id
            &&& end.phase matches PhaseView::Validating(workflow) ==> hash_id_of(workflow)
                == hash_id
        }),
    decreases stimuli.len(),
{
    if stimuli.len() > 0 {
        let last = stimuli.last();
        let front = stimuli.drop_last();
        assert(polls_only(front, hash_id)) by {
            assert forall|i: int| 0 <= i < front.len() implies ((#[trigger] front[i]).event matches LoopEventView::Polled(
                Some(request),
            ) ==> request.hash_id == hash_id) by {
                assert(front[i] == stimuli[i]);
            }
        }
        lemma_one_outcome_per_assignment(state, front, hash_id, cores, time_limit, validator);
        lemma_one_report_per_hash_id(state, front, cores, time_limit, validator);
        lemma_one_report_per_hash_id(state, stimuli, cores, time_limit, validator);
        let before = run_loop(state, front, cores, time_limit, validator);
        assert(last == stimuli[stimuli.len() - 1]);
        match (before.phase, last.event) {
            (PhaseView::Polling, LoopEventView::Polled(Some(request))) => {
                lemma_step_reports_at_the_end(
                    WorkflowView::Assigned(request),
                    EventView::Begin,
                    validator,
                    last.decoded,
                );
            },
            (PhaseView::Validating(workflow), LoopEventView::Validation(e)) => {
                lemma_step_reports_at_the_end(workflow, e, validator, last.decoded);
            },
            _ => {},
        }
        let log = report_log(state, stimuli, cores, time_limit, validator);
        if log.len() >= 2 {
            assert(log[0] != log[1]);
        }
    }
}

/// A node that mines for a pool.
#[derive(Debug)]
pub struct Miner {
    signer: [u8; 32],
    phase: Phase,
    reported: Option<String>,
}

impl View for Miner {
    type V = LoopView;

    closed spec fn view(&self) -> LoopView {
        LoopView { phase: self.phase@, reported: text_of(self.reported) }
    }
}

impl Miner {
    /// A node that signs with the key whose public bytes are `signer`. Its
    /// loop has not started, and it has reported nothing.
    pub fn new(signer: [u8; 32]) -> (miner: Miner)
        ensures
            miner.signer_key() == signer@,
            miner@ == (LoopView { phase: PhaseView::Idle, reported: None }),
            miner.wf(),
    {
        Miner { signer, phase: Phase::Idle, reported: None }
    }

    /// The public bytes of the key that this node signs with.
    pub closed spec fn signer_key(&self) -> Seq<u8> {
        self.signer@
    }

    /// Whether the node is in a state that its own steps lead to.
    pub open spec fn wf(&self) -> bool {
        well_formed(self@)
    }

    /// The public bytes of the key that this node signs with.
    pub fn signer(&self) -> (key: &[u8; 32])
        ensures
            key@ == self.signer_key(),
    {
        &self.signer
    }

    /// Holds a core budget against this machine: the number of its cores,
    /// where the budget asks for more. Mining goes on either way, with the
    /// cores that are there.
    pub fn check_num_cores(&self, cores: u64) -> (warning: Option<usize>)
        ensures
            exists|available: usize|
                available >= 1 && warning == #[trigger] warning_for(cores, available),
    {
        check_budget(cores)
    }

    /// What is kept and sent for a candidate that was found under
    /// `challenge` by a worker that explored the span from `start` to
    /// `last_tried`.
    pub fn submission(found: &Candidate, start: u64, last_tried: u64, challenge: &[u8; 32]) -> (submission:
        Submission)
        ensures
            submission@ == submission_of(*found, start, last_tried, challenge@),
    {
        let mut kept: Vec<u8> = Vec::new();
        let mut i: usize = 0;
        while i < 32
            invariant
                i <= 32,
                challenge@.len() == 32,
                kept@ == challenge@.take(i as int),
            decreases 32 - i,
        {
            kept.push(challenge[i]);
            assert(challenge@.take(i + 1) == challenge@.take(i as int).push(challenge@[i as int]));
            i += 1;
        }
        assert(challenge@.take(32) == challenge@);
        let solution = found.solution();
        Submission {
            pattern: MiningPattern {
                challenge: kept,
                nonce_range: (start, last_tried),
                difficulty: found.difficulty,
            },
            hash: encode_hash(&found.hash),
            difficulty: found.difficulty,
            nonce: encode_nonce(&solution.n),
        }
    }

    /// The hash id of a validation that has ended.
    fn ended_hash_id(workflow: &ValidationWorkflow) -> (hash_id: Option<String>)
        ensures
            is_terminal(workflow@) ==> text_of(hash_id) == Some(hash_id_of(workflow@)),
            !is_terminal(workflow@) ==> hash_id is None,
    {
        match workflow {
            ValidationWorkflow::Confirmed(outcome) => Some(outcome.hashId.clone()),
            ValidationWorkflow::Rejected(outcome) => Some(outcome.hashId.clone()),
            _ => None,
        }
    }

    /// How the loop goes on after a step of the validation.
    fn follow_up(
        workflow: ValidationWorkflow,
        action: ValidationAction,
        reported: Option<String>,
    ) -> (res: (Phase, Option<String>, Action))
        ensures
            (LoopView { phase: res.0@, reported: text_of(res.1) }, res.2@) == follow(
                (workflow@, action@),
                text_of(reported),
            ),
    {
        let action = match action {
            ValidationAction::Nothing => Action::Nothing,
            other => Action::Validation(other),
        };
        match Self::ended_hash_id(&workflow) {
            Some(hash_id) => (Phase::Reporting, Some(hash_id), action),
            None => (Phase::Validating(workflow), reported, action),
        }
    }

    /// Whether `request` is the assignment that was reported last.
    fn was_reported(reported: &Option<String>, request: &ValidationRequest) -> (seen: bool)
        ensures
            seen == (text_of(*reported) == Some(request@.hash_id)),
    {
        match reported {
            Some(hash_id) => same_text(hash_id.as_str(), request.hashId.as_str()),
            None => false,
        }
    }

    /// One step of the mining loop: takes the event that ended the last
    /// action and gives the next action. The members of an assignment are
    /// decoded when the step needs them, so the step is the one for what
    /// decoding gives.
    pub fn mine(&mut self, args: &MineArgs, event: Event) -> (action: Action)
        ensures
            final(self).signer_key() == old(self).signer_key(),
            exists|decoded: Decoded|
                {
                    &&& request_at(old(self)@.phase, event@) matches Some(request) ==> decodes(
                        request,
                        decoded,
                    )
                    &&& (final(self)@, action@) == #[trigger] cycle(
                        old(self)@,
                        event@,
                        args.cores,
                        args.time_limit,
                        old(self).signer_key(),
                        decoded,
                    )
                },
            old(self).wf() ==> final(self).wf(),
    {
        let ghost state0 = self@;
        let ghost event0 = event@;
        let ghost key = self.signer@;
        let ghost any = Decoded {
            miner: Err(Seq::empty()),
            hash: Err(Seq::empty()),
            nonce: Err(Seq::empty()),
        };
        let ghost mut chosen = any;
        let mut phase = Phase::Idle;
        std::mem::swap(&mut self.phase, &mut phase);
        let mut reported: Option<String> = None;
        std::mem::swap(&mut self.reported, &mut reported);
        let validator = self.signer;
        let (next, remembered, action) = match (phase, event) {
            (Phase::Idle, Event::Start) => (Phase::Fetching, reported, Action::Fetch),
            (Phase::Fetching, Event::Challenge(Ok(proof))) => (
                Phase::Searching(proof.min_difficulty, proof.challenge),
                reported,
                Action::Search(
                    SearchOrder {
                        cores: args.cores,
                        min_difficulty: proof.min_difficulty,
                        challenge: proof.challenge,
                        time_limit: args.time_limit,
                    },
                ),
            ),
            (Phase::Fetching, Event::Challenge(Err(_))) => (
                Phase::Fetching,
                reported,
                Action::BackOff,
            ),
            (Phase::Searching(min_difficulty, challenge), Event::Searched(result)) => {
                match result.best {
                    Some(found) => if found.difficulty >= min_difficulty {
                        (
                            Phase::Submitting,
                            reported,
                            Action::Submit(
                                Self::submission(
                                    &found,
                                    result.start,
                                    result.last_tried,
                                    &challenge,
                                ),
                            ),
                        )
                    } else {
                        (Phase::Polling, reported, Action::Poll)
                    },
                    None => (Phase::Polling, reported, Action::Poll),
                }
            },
            (Phase::Submitting, Event::Submitted) => (Phase::Polling, reported, Action::Poll),
            (Phase::Polling, Event::Polled(None)) => (Phase::Fetching, reported, Action::Fetch),
            (Phase::Polling, Event::Polled(Some(request))) => {
                let ghost r = request@;
                if Self::was_reported(&reported, &request) {
                    proof {
                        chosen = witness(r, Err(Seq::empty()));
                        assert(decodes(r, chosen));
                    }
                    (Phase::Fetching, reported, Action::Fetch)
                } else {
                    let workflow = ValidationWorkflow::assign(request);
                    let (workflow, action) = workflow.advance(ValidationEvent::Begin, validator);
                    let ghost w = workflow@;
                    let ghost a = action@;
                    let res = Self::follow_up(workflow, action, reported);
                    proof {
                        let decoded = choose|decoded: Decoded|
                            decodes(r, decoded) && (w, a) == #[trigger] step(
                                WorkflowView::Assigned(r),
                                EventView::Begin,
                                key,
                                decoded,
                            );
                        chosen = decoded;
                    }
                    res
                }
            },
            (Phase::Validating(workflow), Event::Validation(e)) => {
                let ghost w0 = workflow@;
                let ghost ev = e@;
                let (workflow, action) = workflow.advance(e, validator);
                let ghost w = workflow@;
                let ghost a = action@;
                let res = Self::follow_up(workflow, action, reported);
                proof {
                    let decoded = match w0 {
                        WorkflowView::Assigned(request) => choose|decoded: Decoded|
                            decodes(request, decoded) && (w, a) == #[trigger] step(
                                w0,
                                ev,
                                key,
                                decoded,
                            ),
                        WorkflowView::Building(request, _) => choose|decoded: Decoded|
                            decodes(request, decoded) && (w, a) == #[trigger] step(
                                w0,
                                ev,
                                key,
                                decoded,
                            ),
                        _ => any,
                    };
                    assert((w, a) == step(w0, ev, key, decoded));
                    chosen = decoded;
                }
                res
            },
            (Phase::Reporting, Event::Reported) => (Phase::Fetching, reported, Action::Fetch),
            (phase, _) => {
                proof {
                    if let Some(request) = request_at(state0.phase, event0) {
                        chosen = witness(request, Err(Seq::empty()));
                        assert(decodes(request, chosen));
                    }
                }
                (phase, reported, Action::Nothing)
            },
        };
        self.phase = next;
        self.reported = remembered;
        proof {
            assert((self@, action@) == cycle(
                old(self)@,
                event0,
                args.cores,
                args.time_limit,
                old(self).signer_key(),
                chosen,
            ));
            if well_formed(state0) {
                lemma_cycle_keeps_well_formed(
                    state0,
                    event0,
                    args.cores,
                    args.time_limit,
                    key,
                    chosen,
                );
            }
        }
        action
    }
}

} // verus!
