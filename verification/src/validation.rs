//! The validation of one assignment, from the moment it is taken up to the
//! one outcome that is reported for it.
//!
//! The workflow is a state machine. It starts in `Assigned`, asks for a bus
//! account while it is `Building`, hands the finished instruction over while
//! it is `Submitting`, and ends in `Confirmed` or `Rejected`. Whatever goes
//! wrong on the way ends it in `Rejected`, with the reason in the outcome.

use vstd::prelude::*;
use vstd::string::*;
use crate::codec::{
    address_bytes, base58_bytes, decode_address, decode_hash, decode_nonce, hex_bytes,
    is_base58_text, is_hex_text,
};
use crate::pool_client::{ValidationRequest, ValidationRequestView};
use crate::utils::{Instruction, InstructionView, create_mine_ix, mine_ix};
use crate::wire::text_of;

verus! {

/// The record of one validation, reported once for its assignment.
#[allow(non_snake_case)]
#[derive(Debug, Clone)]
pub struct ValidationOutcome {
    pub hashId: String,
    pub success: bool,
    pub signature: Option<String>,
    pub error: Option<String>,
}

/// An outcome as a mathematical value.
pub struct ValidationOutcomeView {
    pub hash_id: Seq<char>,
    pub success: bool,
    pub signature: Option<Seq<char>>,
    pub error: Option<Seq<char>>,
}

impl View for ValidationOutcome {
    type V = ValidationOutcomeView;

    open spec fn view(&self) -> ValidationOutcomeView {
        ValidationOutcomeView {
            hash_id: self.hashId@,
            success: self.success,
            signature: text_of(self.signature),
            error: text_of(self.error),
        }
    }
}

/// Where the validation of one assignment stands.
#[derive(Debug)]
pub enum ValidationWorkflow {
    /// The assignment was taken; nothing was done yet.
    Assigned(ValidationRequest),
    /// The miner's address is decoded; a bus account is being looked for.
    Building(ValidationRequest, [u8; 32]),
    /// The instruction was handed over to be signed and confirmed.
    Submitting(String),
    /// The chain confirmed the instruction.
    Confirmed(ValidationOutcome),
    /// A step failed.
    Rejected(ValidationOutcome),
}

/// What the world tells a workflow.
#[derive(Debug)]
pub enum ValidationEvent {
    /// The workflow may start.
    Begin,
    /// The search for a bus account ended: with the account, or with the
    /// reason why none was found.
    Bus(Result<[u8; 32], String>),
    /// The instruction was confirmed under a signature, or failed for a
    /// reason.
    Settled(Result<String, String>),
}

/// What a workflow asks of the world.
#[derive(Debug)]
pub enum ValidationAction {
    /// Look for a bus account.
    LocateBus,
    /// Sign and send this instruction, and wait until it is confirmed.
    Send(Instruction),
    /// Report this outcome to the pool.
    Report(ValidationOutcome),
    /// Nothing: the event was not for this state.
    Nothing,
}

/// A workflow as a mathematical value.
pub enum WorkflowView {
    Assigned(ValidationRequestView),
    Building(ValidationRequestView, Seq<u8>),
    Submitting(Seq<char>),
    Confirmed(ValidationOutcomeView),
    Rejected(ValidationOutcomeView),
}

/// An event as a mathematical value.
pub enum EventView {
    Begin,
    Bus(Result<Seq<u8>, Seq<char>>),
    Settled(Result<Seq<char>, Seq<char>>),
}

/// An action as a mathematical value.
pub enum ActionView {
    LocateBus,
    Send(InstructionView),
    Report(ValidationOutcomeView),
    Nothing,
}

impl View for ValidationWorkflow {
    type V = WorkflowView;

    open spec fn view(&self) -> WorkflowView {
        match self {
            ValidationWorkflow::Assigned(r) => WorkflowView::Assigned(r@),
            ValidationWorkflow::Building(r, miner) => WorkflowView::Building(r@, miner@),
            ValidationWorkflow::Submitting(id) => WorkflowView::Submitting(id@),
            ValidationWorkflow::Confirmed(o) => WorkflowView::Confirmed(o@),
            ValidationWorkflow::Rejected(o) => WorkflowView::Rejected(o@),
        }
    }
}

impl View for ValidationEvent {
    type V = EventView;

    open spec fn view(&self) -> EventView {
        match self {
            ValidationEvent::Begin => EventView::Begin,
            ValidationEvent::Bus(Ok(bus)) => EventView::Bus(Ok(bus@)),
            ValidationEvent::Bus(Err(reason)) => EventView::Bus(Err(reason@)),
            ValidationEvent::Settled(Ok(signature)) => EventView::Settled(Ok(signature@)),
            ValidationEvent::Settled(Err(reason)) => EventView::Settled(Err(reason@)),
        }
    }
}

impl View for ValidationAction {
    type V = ActionView;

    open spec fn view(&self) -> ActionView {
        match self {
            ValidationAction::LocateBus => ActionView::LocateBus,
            ValidationAction::Send(ix) => ActionView::Send(ix@),
            ValidationAction::Report(o) => ActionView::Report(o@),
            ValidationAction::Nothing => ActionView::Nothing,
        }
    }
}

/// What decoding the members of an assignment gave: the bytes of each, or
/// the reason why its text stands for none.
pub struct Decoded {
    pub miner: Result<Seq<u8>, Seq<char>>,
    pub hash: Result<Seq<u8>, Seq<char>>,
    pub nonce: Result<Seq<u8>, Seq<char>>,
}

/// Whether a decoding failed for a reason that is given in words.
pub open spec fn fails_with_reason(res: Result<Seq<u8>, Seq<char>>) -> bool {
    res is Err && res->Err_0.len() > 0
}

/// Whether `decoded` is what decoding the members of `request` gives. The
/// bytes are fixed by the texts. Where a text stands for no bytes there is a
/// reason, which is never empty; its wording is that of the decoder.
pub open spec fn decodes(request: ValidationRequestView, decoded: Decoded) -> bool {
    &&& match address_bytes(request.miner_address) {
        Some(key) => decoded.miner == Ok::<Seq<u8>, Seq<char>>(key),
        None => fails_with_reason(decoded.miner),
    }
    &&& if is_base58_text(request.hash) {
        decoded.hash == Ok::<Seq<u8>, Seq<char>>(base58_bytes(request.hash))
    } else {
        fails_with_reason(decoded.hash)
    }
    &&& if is_hex_text(request.nonce) {
        decoded.nonce == Ok::<Seq<u8>, Seq<char>>(hex_bytes(request.nonce))
    } else {
        fails_with_reason(decoded.nonce)
    }
}

/// The outcome of a validation that the chain confirmed.
pub open spec fn confirmed(hash_id: Seq<char>, signature: Seq<char>) -> ValidationOutcomeView {
    ValidationOutcomeView { hash_id, success: true, signature: Some(signature), error: None }
}

/// The outcome of a validation that failed.
pub open spec fn failed(hash_id: Seq<char>, reason: Seq<char>) -> ValidationOutcomeView {
    ValidationOutcomeView { hash_id, success: false, signature: None, error: Some(reason) }
}

/// The end of a workflow in failure: the state and the report.
pub open spec fn reject(hash_id: Seq<char>, reason: Seq<char>) -> (WorkflowView, ActionView) {
    (WorkflowView::Rejected(failed(hash_id, reason)), ActionView::Report(failed(hash_id, reason)))
}

/// Whether a workflow has ended.
pub open spec fn is_terminal(state: WorkflowView) -> bool {
    state is Confirmed || state is Rejected
}

/// The hash id of the assignment that a workflow is about.
pub open spec fn hash_id_of(state: WorkflowView) -> Seq<char> {
    match state {
        WorkflowView::Assigned(r) => r.hash_id,
        WorkflowView::Building(r, _) => r.hash_id,
        WorkflowView::Submitting(id) => id,
        WorkflowView::Confirmed(o) => o.hash_id,
        WorkflowView::Rejected(o) => o.hash_id,
    }
}

/// One step of a workflow: the state and the action that follow from a state
/// and an event, for the validator `validator` and given what decoding the
/// assignment's members gives.
///
/// The members are decoded in the order miner, hash, nonce, each only when
/// it is needed, and the first failure ends the workflow.
pub open spec fn step(
    state: WorkflowView,
    event: EventView,
    validator: Seq<u8>,
    decoded: Decoded,
) -> (WorkflowView, ActionView) {
    match (state, event) {
        (WorkflowView::Assigned(request), EventView::Begin) => match decoded.miner {
            Ok(miner) => (WorkflowView::Building(request, miner), ActionView::LocateBus),
            Err(reason) => reject(request.hash_id, reason),
        },
        (WorkflowView::Building(request, miner), EventView::Bus(found)) => match found {
            Err(reason) => reject(request.hash_id, reason),
            Ok(bus) => match decoded.hash {
                Err(reason) => reject(request.hash_id, reason),
                Ok(hash) => match decoded.nonce {
                    Err(reason) => reject(request.hash_id, reason),
                    Ok(nonce) => (
                        WorkflowView::Submitting(request.hash_id),
                        ActionView::Send(mine_ix(miner, validator, bus, hash, nonce)),
                    ),
                },
            },
        },
        (WorkflowView::Submitting(hash_id), EventView::Settled(result)) => match result {
            Ok(signature) => (
                WorkflowView::Confirmed(confirmed(hash_id, signature)),
                ActionView::Report(confirmed(hash_id, signature)),
            ),
            Err(reason) => reject(hash_id, reason),
        },
        _ => (state, ActionView::Nothing),
    }
}

/// One event together with what decoding gives when it arrives.
pub struct Stimulus {
    pub event: EventView,
    pub decoded: Decoded,
}

/// The state of a workflow after a sequence of events.
pub open spec fn run(state: WorkflowView, stimuli: Seq<Stimulus>, validator: Seq<u8>) -> WorkflowView
    decreases stimuli.len(),
{
    if stimuli.len() == 0 {
        state
    } else {
        let last = stimuli.last();
        step(run(state, stimuli.drop_last(), validator), last.event, validator, last.decoded).0
    }
}

/// The number of outcomes that a workflow reports over a sequence of events.
pub open spec fn reports(state: WorkflowView, stimuli: Seq<Stimulus>, validator: Seq<u8>) -> nat
    decreases stimuli.len(),
{
    if stimuli.len() == 0 {
        0
    } else {
        let last = stimuli.last();
        let before = run(state, stimuli.drop_last(), validator);
        reports(state, stimuli.drop_last(), validator) + if step(
            before,
            last.event,
            validator,
            last.decoded,
        ).1 is Report {
            1nat
        } else {
            0nat
        }
    }
}

/// A step reports an outcome exactly when it ends the workflow, and the
/// outcome it reports is the one the workflow ends with, under the hash id of
/// its assignment. A workflow that has ended stays as it is and reports
/// nothing more.
pub proof fn lemma_step_reports_at_the_end(
    state: WorkflowView,
    event: EventView,
    validator: Seq<u8>,
    decoded: Decoded,
)
    ensures
        ({
            let (next, action) = step(state, event, validator, decoded);
            &&& action is Report <==> !is_terminal(state) && is_terminal(next)
            &&& is_terminal(state) ==> next == state && action is Nothing
            &&& hash_id_of(next) == hash_id_of(state)
            &&& action matches ActionView::Report(outcome) ==> {
                &&& outcome.hash_id == hash_id_of(state)
                &&& next == WorkflowView::Confirmed(outcome) || next == WorkflowView::Rejected(
                    outcome,
                )
                &&& next is Confirmed <==> outcome.success
                &&& outcome.success ==> outcome.signature is Some && outcome.error is None
                &&& !outcome.success ==> outcome.signature is None && outcome.error is Some
            }
        }),
{
}

/// Every assignment yields one outcome and never more: over any sequence of
/// events a workflow that starts before its end reports exactly once if it
/// reaches its end and not at all if it does not.
pub proof fn lemma_one_outcome(state: WorkflowView, stimuli: Seq<Stimulus>, validator: Seq<u8>)
    requires
        !is_terminal(state),
    ensures
        reports(state, stimuli, validator) == if is_terminal(run(state, stimuli, validator)) {
            1nat
        } else {
            0nat
        },
        hash_id_of(run(state, stimuli, validator)) == hash_id_of(state),
    decreases stimuli.len(),
{
    if stimuli.len() > 0 {
        let last = stimuli.last();
        lemma_one_outcome(state, stimuli.drop_last(), validator);
        lemma_step_reports_at_the_end(
            run(state, stimuli.drop_last(), validator),
            last.event,
            validator,
            last.decoded,
        );
    }
}

/// The view of a decoding result.
pub open spec fn bytes_view(res: Result<Vec<u8>, String>) -> Result<Seq<u8>, Seq<char>> {
    match res {
        Ok(bytes) => Ok(bytes@),
        Err(reason) => Err(reason@),
    }
}

/// The view of a signature or the reason why there is none.
pub open spec fn text_view(res: Result<String, String>) -> Result<Seq<char>, Seq<char>> {
    match res {
        Ok(text) => Ok(text@),
        Err(reason) => Err(reason@),
    }
}

/// The view of a decoded address.
pub open spec fn key_view(res: Result<[u8; 32], String>) -> Result<Seq<u8>, Seq<char>> {
    match res {
        Ok(key) => Ok(key@),
        Err(reason) => Err(reason@),
    }
}

impl ValidationOutcome {
    /// The outcome of a validation that failed for `reason`.
    pub fn failure(hash_id: String, reason: String) -> (outcome: ValidationOutcome)
        ensures
            outcome@ == failed(hash_id@, reason@),
    {
        ValidationOutcome { hashId: hash_id, success: false, signature: None, error: Some(reason) }
    }

    /// The outcome of a validation that the chain confirmed under
    /// `signature`.
    pub fn confirmation(hash_id: String, signature: String) -> (outcome: ValidationOutcome)
        ensures
            outcome@ == confirmed(hash_id@, signature@),
    {
        ValidationOutcome {
            hashId: hash_id,
            success: true,
            signature: Some(signature),
            error: None,
        }
    }

    /// A copy of the outcome.
    pub fn duplicate(&self) -> (copy: ValidationOutcome)
        ensures
            copy@ == self@,
    {
        ValidationOutcome {
            hashId: self.hashId.clone(),
            success: self.success,
            signature: match &self.signature {
                Some(s) => Some(s.clone()),
                None => None,
            },
            error: match &self.error {
                Some(e) => Some(e.clone()),
                None => None,
            },
        }
    }
}

impl ValidationWorkflow {
    /// The workflow of an assignment that was just taken.
    pub fn assign(request: ValidationRequest) -> (workflow: ValidationWorkflow)
        ensures
            workflow@ == WorkflowView::Assigned(request@),
    {
        ValidationWorkflow::Assigned(request)
    }

    /// Whether the workflow has ended.
    pub fn is_done(&self) -> (done: bool)
        ensures
            done == is_terminal(self@),
    {
        match self {
            ValidationWorkflow::Confirmed(_) => true,
            ValidationWorkflow::Rejected(_) => true,
            _ => false,
        }
    }

    /// The end of a workflow in failure.
    fn rejected(hash_id: String, reason: String) -> (res: (ValidationWorkflow, ValidationAction))
        ensures
            (res.0@, res.1@) == reject(hash_id@, reason@),
    {
        let outcome = ValidationOutcome::failure(hash_id, reason);
        let report = outcome.duplicate();
        (ValidationWorkflow::Rejected(outcome), ValidationAction::Report(report))
    }

    /// The step of an assigned workflow that may begin, given what decoding
    /// the miner's address gave.
    pub fn begin_with(request: ValidationRequest, miner: Result<[u8; 32], String>) -> (res: (
        ValidationWorkflow,
        ValidationAction,
    ))
        ensures
            (res.0@, res.1@) == step(
                WorkflowView::Assigned(request@),
                EventView::Begin,
                Seq::empty(),
                Decoded { miner: key_view(miner), hash: Err(Seq::empty()), nonce: Err(Seq::empty()) },
            ),
    {
        match miner {
            Ok(key) => (ValidationWorkflow::Building(request, key), ValidationAction::LocateBus),
            Err(reason) => Self::rejected(request.hashId, reason),
        }
    }

    /// The step of a building workflow whose bus account was found, given
    /// what decoding the hash and the nonce gave.
    pub fn build_with(
        request: ValidationRequest,
        miner: [u8; 32],
        validator: [u8; 32],
        bus: [u8; 32],
        hash: Result<Vec<u8>, String>,
        nonce: Result<Vec<u8>, String>,
    ) -> (res: (ValidationWorkflow, ValidationAction))
        ensures
            (res.0@, res.1@) == step(
                WorkflowView::Building(request@, miner@),
                EventView::Bus(Ok(bus@)),
                validator@,
                Decoded { miner: Ok(miner@), hash: bytes_view(hash), nonce: bytes_view(nonce) },
            ),
    {
        match hash {
            Err(reason) => Self::rejected(request.hashId, reason),
            Ok(hash) => match nonce {
                Err(reason) => Self::rejected(request.hashId, reason),
                Ok(nonce) => {
                    let ix = create_mine_ix(miner, validator, bus, hash, nonce);
                    (ValidationWorkflow::Submitting(request.hashId), ValidationAction::Send(ix))
                },
            },
        }
    }

    /// The step of a submitting workflow whose instruction was settled.
    pub fn settle(hash_id: String, result: Result<String, String>) -> (res: (
        ValidationWorkflow,
        ValidationAction,
    ))
        ensures
            forall|validator: Seq<u8>, decoded: Decoded|
                (res.0@, res.1@) == #[trigger] step(
                    WorkflowView::Submitting(hash_id@),
                    EventView::Settled(text_view(result)),
                    validator,
                    decoded,
                ),
    {
        match result {
            Ok(signature) => {
                let outcome = ValidationOutcome::confirmation(hash_id, signature);
                let report = outcome.duplicate();
                (ValidationWorkflow::Confirmed(outcome), ValidationAction::Report(report))
            },
            Err(reason) => Self::rejected(hash_id, reason),
        }
    }

    /// One step of the workflow: takes an event and gives the next state and
    /// what is to be done. The members of the assignment are decoded here,
    /// when the step needs them; the result is the step for what decoding
    /// gives.
    pub fn advance(self, event: ValidationEvent, validator: [u8; 32]) -> (res: (
        ValidationWorkflow,
        ValidationAction,
    ))
        ensures
            match self@ {
                WorkflowView::Assigned(request) => exists|decoded: Decoded|
                    decodes(request, decoded) && (res.0@, res.1@) == #[trigger] step(
                        self@,
                        event@,
                        validator@,
                        decoded,
                    ),
                WorkflowView::Building(request, _) => exists|decoded: Decoded|
                    decodes(request, decoded) && (res.0@, res.1@) == #[trigger] step(
                        self@,
                        event@,
                        validator@,
                        decoded,
                    ),
                _ => forall|decoded: Decoded|
                    (res.0@, res.1@) == #[trigger] step(self@, event@, validator@, decoded),
            },
    {
        let ghost state0 = self@;
        let ghost event0 = event@;
        match (self, event) {
            (ValidationWorkflow::Assigned(request), ValidationEvent::Begin) => {
                let ghost before = request@;
                let miner = decode_address(request.minerAddress.as_str());
                let ghost decoded = witness(before, key_view(miner));
                let res = Self::begin_with(request, miner);
                assert(decodes(before, decoded));
                assert((res.0@, res.1@) == step(
                    WorkflowView::Assigned(before),
                    EventView::Begin,
                    validator@,
                    decoded,
                ));
                res
            },
            (ValidationWorkflow::Building(request, miner), ValidationEvent::Bus(found)) => {
                let ghost before = request@;
                match found {
                    Err(reason) => {
                        let ghost decoded = witness(before, Ok(miner@));
                        let ghost r = reason@;
                        let res = Self::rejected(request.hashId, reason);
                        assert(decodes(before, decoded));
                        assert((res.0@, res.1@) == step(
                            WorkflowView::Building(before, miner@),
                            EventView::Bus(Err(r)),
                            validator@,
                            decoded,
                        ));
                        res
                    },
                    Ok(bus) => {
                        let hash = decode_hash(request.hash.as_str());
                        let nonce = decode_nonce(request.nonce.as_str());
                        let ghost decoded = Decoded {
                            miner: witness(before, Ok(miner@)).miner,
                            hash: bytes_view(hash),
                            nonce: bytes_view(nonce),
                        };
                        let res = Self::build_with(request, miner, validator, bus, hash, nonce);
                        assert(decodes(before, decoded));
                        assert((res.0@, res.1@) == step(
                            WorkflowView::Building(before, miner@),
                            EventView::Bus(Ok(bus@)),
                            validator@,
                            decoded,
                        ));
                        res
                    },
                }
            },
            (ValidationWorkflow::Submitting(hash_id), ValidationEvent::Settled(result)) => {
                Self::settle(hash_id, result)
            },
            (state, _) => {
                proof {
                    match state0 {
                        WorkflowView::Assigned(request) => {
                            let decoded = witness(request, Err(Seq::empty()));
                            assert(decodes(request, decoded));
                            assert((state0, ActionView::Nothing) == step(
                                state0,
                                event0,
                                validator@,
                                decoded,
                            ));
                        },
                        WorkflowView::Building(request, _) => {
                            let decoded = witness(request, Err(Seq::empty()));
                            assert(decodes(request, decoded));
                            assert((state0, ActionView::Nothing) == step(
                                state0,
                                event0,
                                validator@,
                                decoded,
                            ));
                        },
                        _ => {},
                    }
                }
                (state, ValidationAction::Nothing)
            },
        }
    }
}

/// Some decoding of the members of `request`, with `miner` for the address
/// where that fits the text.
pub open spec fn witness(request: ValidationRequestView, miner: Result<Seq<u8>, Seq<char>>) -> Decoded {
    Decoded {
        miner: match address_bytes(request.miner_address) {
            Some(key) => Ok(key),
            None => if fails_with_reason(miner) {
                miner
            } else {
                Err(seq!['-'])
            },
        },
        hash: if is_base58_text(request.hash) {
            Ok(base58_bytes(request.hash))
        } else {
            Err(seq!['-'])
        },
        nonce: if is_hex_text(request.nonce) {
            Ok(hex_bytes(request.nonce))
        } else {
            Err(seq!['-'])
        },
    }
}

/// A member that cannot be decoded ends the validation in failure, and the
/// outcome that is reported gives the decoder's reason, which is not empty:
/// for the miner's address when the validation begins, for the hash and then
/// the nonce when the bus account is found.
pub proof fn lemma_decode_failure_is_reported_with_its_reason(
    request: ValidationRequestView,
    miner: Seq<u8>,
    bus: Seq<u8>,
    validator: Seq<u8>,
    decoded: Decoded,
)
    requires
        decodes(request, decoded),
    ensures
        address_bytes(request.miner_address) is None ==> step(
            WorkflowView::Assigned(request),
            EventView::Begin,
            validator,
            decoded,
        ) == reject(request.hash_id, decoded.miner->Err_0) && decoded.miner->Err_0.len() > 0,
        !is_base58_text(request.hash) ==> step(
            WorkflowView::Building(request, miner),
            EventView::Bus(Ok(bus)),
            validator,
            decoded,
        ) == reject(request.hash_id, decoded.hash->Err_0) && decoded.hash->Err_0.len() > 0,
        is_base58_text(request.hash) && !is_hex_text(request.nonce) ==> step(
            WorkflowView::Building(request, miner),
            EventView::Bus(Ok(bus)),
            validator,
            decoded,
        ) == reject(request.hash_id, decoded.nonce->Err_0) && decoded.nonce->Err_0.len() > 0,
{
}

} // verus!
