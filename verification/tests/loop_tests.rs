use pool_miner::coordinator::BestResult;
use pool_miner::mine::{Action, Event, MineArgs, Miner};
use pool_miner::mining_history::{MiningHistory, MiningPattern};
use pool_miner::pool_client::{PoolClient, ValidationRequest};
use pool_miner::search::Candidate;
use pool_miner::utils::{create_mine_ix, mine_program_id, ProofState};
use pool_miner::validation::{
    ValidationAction, ValidationEvent, ValidationOutcome, ValidationWorkflow,
};

const ZERO_KEY: &str = "11111111111111111111111111111111";

fn args() -> MineArgs {
    MineArgs { cores: 4, time_limit: 30, pool_url: "ws://localhost:3000".to_string() }
}

fn request(hash_id: &str, miner: &str, hash: &str, nonce: &str) -> ValidationRequest {
    ValidationRequest {
        msg_type: "validate_hash".to_string(),
        hashId: hash_id.to_string(),
        hash: hash.to_string(),
        difficulty: 18,
        minerAddress: miner.to_string(),
        nonce: nonce.to_string(),
    }
}

fn good_request(hash_id: &str) -> ValidationRequest {
    request(hash_id, ZERO_KEY, "he11owor1d", "0102")
}

fn result(difficulty: u32) -> BestResult {
    let mut hash = [0u8; 32];
    hash[31] = 1;
    BestResult {
        best: Some(Candidate { nonce: 0x0a0b, digest: [4u8; 16], hash, difficulty }),
        start: 0x0a00,
        last_tried: 0x0a0b,
    }
}

fn proof_state(min_difficulty: u32) -> ProofState {
    ProofState {
        challenge: [6u8; 32],
        last_reset_at: 0,
        min_difficulty,
        base_reward_rate: 1000,
        top_balance: 0,
    }
}

/// Brings a fresh miner to the point where it polls for an assignment.
fn polling_miner(signer: [u8; 32]) -> Miner {
    let mut miner = Miner::new(signer);
    assert!(matches!(miner.mine(&args(), Event::Start), Action::Fetch));
    assert!(matches!(miner.mine(&args(), Event::Challenge(Ok(proof_state(16)))), Action::Search(_)));
    assert!(matches!(miner.mine(&args(), Event::Searched(result(3))), Action::Poll));
    miner
}

fn report_of(action: Action) -> ValidationOutcome {
    match action {
        Action::Validation(ValidationAction::Report(outcome)) => outcome,
        other => panic!("expected a report, got {:?}", other),
    }
}

#[test]
fn the_loop_starts_by_fetching() {
    let mut miner = Miner::new([1u8; 32]);
    assert_eq!(miner.signer(), &[1u8; 32]);
    assert!(matches!(miner.mine(&args(), Event::Start), Action::Fetch));
    assert!(matches!(miner.mine(&args(), Event::Start), Action::Nothing));
}

#[test]
fn the_search_is_ordered_with_the_fetched_challenge_and_target() {
    let mut miner = Miner::new([1u8; 32]);
    miner.mine(&args(), Event::Start);
    match miner.mine(&args(), Event::Challenge(Ok(proof_state(19)))) {
        Action::Search(order) => {
            assert_eq!(order.cores, 4);
            assert_eq!(order.min_difficulty, 19);
            assert_eq!(order.challenge, [6u8; 32]);
            assert_eq!(order.time_limit, 30);
        }
        other => panic!("expected a search, got {:?}", other),
    }
}

#[test]
fn a_failed_fetch_is_tried_again() {
    let mut miner = Miner::new([1u8; 32]);
    miner.mine(&args(), Event::Start);
    assert!(matches!(
        miner.mine(&args(), Event::Challenge(Err("rpc down".to_string()))),
        Action::BackOff
    ));
    assert!(matches!(miner.mine(&args(), Event::Challenge(Ok(proof_state(1)))), Action::Search(_)));
}

#[test]
fn a_result_at_the_target_is_submitted() {
    let mut miner = Miner::new([1u8; 32]);
    miner.mine(&args(), Event::Start);
    miner.mine(&args(), Event::Challenge(Ok(proof_state(16))));
    match miner.mine(&args(), Event::Searched(result(16))) {
        Action::Submit(submission) => {
            assert_eq!(submission.hash, "11111111111111111111111111111112");
            assert_eq!(submission.nonce, "0b0a000000000000");
            assert_eq!(submission.difficulty, 16);
            assert_eq!(submission.pattern.challenge, vec![6u8; 32]);
            assert_eq!(submission.pattern.nonce_range, (0x0a00, 0x0a0b));
            assert_eq!(submission.pattern.difficulty, 16);
        }
        other => panic!("expected a submission, got {:?}", other),
    }
    assert!(matches!(miner.mine(&args(), Event::Submitted), Action::Poll));
}

#[test]
fn a_result_above_the_target_is_submitted() {
    let mut miner = Miner::new([1u8; 32]);
    miner.mine(&args(), Event::Start);
    miner.mine(&args(), Event::Challenge(Ok(proof_state(16))));
    assert!(matches!(miner.mine(&args(), Event::Searched(result(40))), Action::Submit(_)));
}

#[test]
fn a_result_below_the_target_is_not_submitted() {
    let mut miner = Miner::new([1u8; 32]);
    miner.mine(&args(), Event::Start);
    miner.mine(&args(), Event::Challenge(Ok(proof_state(16))));
    assert!(matches!(miner.mine(&args(), Event::Searched(result(15))), Action::Poll));
    assert!(matches!(miner.mine(&args(), Event::Submitted), Action::Nothing));
}

#[test]
fn a_target_of_zero_is_met_by_any_candidate_that_was_observed() {
    let mut miner = Miner::new([1u8; 32]);
    miner.mine(&args(), Event::Start);
    miner.mine(&args(), Event::Challenge(Ok(proof_state(0))));
    assert!(matches!(miner.mine(&args(), Event::Searched(result(0))), Action::Submit(_)));
}

#[test]
fn a_search_that_observed_nothing_is_not_submitted() {
    let idle = BestResult { best: None, start: 0, last_tried: 0 };
    for target in [0u32, 1, 16] {
        let mut miner = Miner::new([1u8; 32]);
        miner.mine(&args(), Event::Start);
        miner.mine(&args(), Event::Challenge(Ok(proof_state(target))));
        assert!(matches!(miner.mine(&args(), Event::Searched(idle)), Action::Poll));
    }
}

#[test]
fn the_pattern_holds_the_challenge_of_its_epoch() {
    let mut miner = Miner::new([1u8; 32]);
    miner.mine(&args(), Event::Start);
    let mut state = proof_state(4);
    state.challenge = [0xabu8; 32];
    miner.mine(&args(), Event::Challenge(Ok(state)));
    match miner.mine(&args(), Event::Searched(result(9))) {
        Action::Submit(submission) => {
            assert_eq!(submission.pattern.challenge, vec![0xabu8; 32]);
            assert_ne!(submission.pattern.challenge, result(9).best.unwrap().hash.to_vec());
            assert_eq!(submission.pattern.nonce_range, (0x0a00, 0x0a0b));
            assert_eq!(submission.pattern.difficulty, 9);
        }
        other => panic!("expected a submission, got {:?}", other),
    }
}

/// Runs one cycle without a submission up to the poll.
fn next_poll(miner: &mut Miner) {
    assert!(matches!(miner.mine(&args(), Event::Challenge(Ok(proof_state(16)))), Action::Search(_)));
    assert!(matches!(miner.mine(&args(), Event::Searched(result(3))), Action::Poll));
}

#[test]
fn an_assignment_that_was_reported_is_not_validated_again() {
    let mut session = PoolClient::new("ws://localhost:3000".to_string(), "Miner111".to_string());
    session
        .receive("{\"type\":\"validate_hash\",\"hashId\":\"abc123\",\"hash\":\"he11owor1d\",\"difficulty\":18,\"minerAddress\":\"11111111111111111111111111111111\",\"nonce\":\"0102\"}")
        .unwrap();
    let mut miner = polling_miner([1u8; 32]);
    let mut reports = 0;
    miner.mine(&args(), Event::Polled(session.get_validation_request()));
    let action = miner.mine(
        &args(),
        Event::Validation(ValidationEvent::Bus(Err("No available bus found".to_string()))),
    );
    if matches!(action, Action::Validation(ValidationAction::Report(_))) {
        reports += 1;
    }
    assert!(matches!(miner.mine(&args(), Event::Reported), Action::Fetch));

    // the session still holds the assignment; every later poll passes it over
    for _ in 0..3 {
        next_poll(&mut miner);
        let action = miner.mine(&args(), Event::Polled(session.get_validation_request()));
        assert!(matches!(action, Action::Fetch));
    }
    assert_eq!(reports, 1);

    // another assignment is taken up, and then the first one again if it comes anew
    next_poll(&mut miner);
    let action = miner.mine(&args(), Event::Polled(Some(good_request("def456"))));
    assert!(matches!(action, Action::Validation(ValidationAction::LocateBus)));
    miner.mine(&args(), Event::Validation(ValidationEvent::Bus(Ok([3u8; 32]))));
    let action = miner.mine(
        &args(),
        Event::Validation(ValidationEvent::Settled(Ok("sig".to_string()))),
    );
    assert_eq!(report_of(action).hashId, "def456");
    miner.mine(&args(), Event::Reported);
    next_poll(&mut miner);
    assert!(matches!(
        miner.mine(&args(), Event::Polled(Some(good_request("def456")))),
        Action::Fetch
    ));
}

#[test]
fn a_confirmed_assignment_is_not_validated_again() {
    let mut miner = polling_miner([9u8; 32]);
    miner.mine(&args(), Event::Polled(Some(good_request("abc123"))));
    miner.mine(&args(), Event::Validation(ValidationEvent::Bus(Ok([3u8; 32]))));
    let action = miner.mine(
        &args(),
        Event::Validation(ValidationEvent::Settled(Ok("5signature".to_string()))),
    );
    assert!(report_of(action).success);
    assert!(matches!(miner.mine(&args(), Event::Reported), Action::Fetch));
    next_poll(&mut miner);
    assert!(matches!(
        miner.mine(&args(), Event::Polled(Some(good_request("abc123")))),
        Action::Fetch
    ));
    assert!(matches!(miner.mine(&args(), Event::Challenge(Ok(proof_state(1)))), Action::Search(_)));
}

#[test]
fn an_assignment_rejected_at_once_is_not_validated_again() {
    let mut miner = polling_miner([9u8; 32]);
    let bad = request("abc123", "not-an-address", "he11owor1d", "0102");
    let action = miner.mine(&args(), Event::Polled(Some(bad)));
    let outcome = report_of(action);
    assert!(!outcome.error.unwrap().is_empty());
    miner.mine(&args(), Event::Reported);
    next_poll(&mut miner);
    let bad = request("abc123", "not-an-address", "he11owor1d", "0102");
    assert!(matches!(miner.mine(&args(), Event::Polled(Some(bad))), Action::Fetch));
}

#[test]
fn without_an_assignment_the_next_cycle_starts() {
    let mut miner = polling_miner([1u8; 32]);
    assert!(matches!(miner.mine(&args(), Event::Polled(None)), Action::Fetch));
    assert!(matches!(miner.mine(&args(), Event::Challenge(Ok(proof_state(1)))), Action::Search(_)));
}

#[test]
fn events_out_of_turn_change_nothing() {
    let mut miner = Miner::new([1u8; 32]);
    assert!(matches!(miner.mine(&args(), Event::Searched(result(99))), Action::Nothing));
    assert!(matches!(miner.mine(&args(), Event::Polled(Some(good_request("x")))), Action::Nothing));
    assert!(matches!(miner.mine(&args(), Event::Reported), Action::Nothing));
    assert!(matches!(
        miner.mine(&args(), Event::Validation(ValidationEvent::Begin)),
        Action::Nothing
    ));
    assert!(matches!(miner.mine(&args(), Event::Start), Action::Fetch));
}

#[test]
fn a_failed_bus_lookup_is_reported_once() {
    // the assignment arrives at the session
    let mut session = PoolClient::new("ws://localhost:3000".to_string(), "Miner111".to_string());
    session
        .receive("{\"type\":\"validate_hash\",\"hashId\":\"abc123\",\"hash\":\"he11owor1d\",\"difficulty\":18,\"minerAddress\":\"11111111111111111111111111111111\",\"nonce\":\"0102\"}")
        .unwrap();

    // the loop polls, takes the assignment up and asks for a bus
    let mut miner = polling_miner([1u8; 32]);
    let mut reports = Vec::new();
    let action = miner.mine(&args(), Event::Polled(session.get_validation_request()));
    assert!(matches!(action, Action::Validation(ValidationAction::LocateBus)));

    // no bus is found
    let action = miner.mine(
        &args(),
        Event::Validation(ValidationEvent::Bus(Err("No available bus found".to_string()))),
    );
    if let Action::Validation(ValidationAction::Report(outcome)) = action {
        reports.push(outcome);
    }

    // whatever comes later, nothing more is reported for this assignment
    for event in [
        Event::Validation(ValidationEvent::Bus(Ok([2u8; 32]))),
        Event::Validation(ValidationEvent::Settled(Ok("sig".to_string()))),
        Event::Validation(ValidationEvent::Begin),
    ] {
        assert!(matches!(miner.mine(&args(), event), Action::Nothing));
    }
    assert_eq!(reports.len(), 1);
    let outcome = &reports[0];
    assert_eq!(outcome.hashId, "abc123");
    assert!(!outcome.success);
    assert_eq!(outcome.signature, None);
    assert_eq!(outcome.error.as_deref(), Some("No available bus found"));

    // exactly one message goes out
    let frame = session.submit_validation_result(
        outcome.hashId.clone(),
        outcome.success,
        outcome.signature.clone(),
        outcome.error.clone(),
    );
    let doc = serde_json::from_str::<serde_json::Value>(&frame).unwrap();
    assert_eq!(doc["type"].as_str(), Some("validation_result"));
    assert_eq!(doc["hashId"].as_str(), Some("abc123"));
    assert_eq!(doc["success"].as_bool(), Some(false));
    assert!(!doc["error"].as_str().unwrap().is_empty());

    assert!(matches!(miner.mine(&args(), Event::Reported), Action::Fetch));
}

#[test]
fn only_the_latest_of_two_assignments_is_validated() {
    let mut session = PoolClient::new("ws://localhost:3000".to_string(), "Miner111".to_string());
    for id in ["first", "second"] {
        let text = format!(
            "{{\"type\":\"validate_hash\",\"hashId\":\"{}\",\"hash\":\"he11owor1d\",\"difficulty\":18,\"minerAddress\":\"{}\",\"nonce\":\"0102\"}}",
            id, ZERO_KEY
        );
        session.receive(&text).unwrap();
    }
    let mut miner = polling_miner([1u8; 32]);
    miner.mine(&args(), Event::Polled(session.get_validation_request()));
    let action = miner.mine(
        &args(),
        Event::Validation(ValidationEvent::Bus(Err("none".to_string()))),
    );
    assert_eq!(report_of(action).hashId, "second");
}

#[test]
fn a_confirmed_validation_is_reported_with_its_signature() {
    let signer = [9u8; 32];
    let mut miner = polling_miner(signer);
    let action = miner.mine(&args(), Event::Polled(Some(good_request("abc123"))));
    assert!(matches!(action, Action::Validation(ValidationAction::LocateBus)));

    let bus = [3u8; 32];
    let action = miner.mine(&args(), Event::Validation(ValidationEvent::Bus(Ok(bus))));
    match action {
        Action::Validation(ValidationAction::Send(ix)) => {
            assert_eq!(ix.accounts.len(), 3);
            assert_eq!(ix.accounts[0].pubkey, [0u8; 32]);
            assert!(!ix.accounts[0].is_signer && ix.accounts[0].is_writable);
            assert_eq!(ix.accounts[1].pubkey, signer);
            assert!(ix.accounts[1].is_signer && ix.accounts[1].is_writable);
            assert_eq!(ix.accounts[2].pubkey, bus);
            assert!(!ix.accounts[2].is_signer && ix.accounts[2].is_writable);
            assert_eq!(ix.data, vec![0x04, 0x30, 0x5e, 0x2b, 0x24, 0x73, 0xf0, 0x58, 0x01, 0x02]);
        }
        other => panic!("expected an instruction, got {:?}", other),
    }

    let action = miner.mine(
        &args(),
        Event::Validation(ValidationEvent::Settled(Ok("5signature".to_string()))),
    );
    let outcome = report_of(action);
    assert_eq!(outcome.hashId, "abc123");
    assert!(outcome.success);
    assert_eq!(outcome.signature.as_deref(), Some("5signature"));
    assert_eq!(outcome.error, None);
    assert!(matches!(miner.mine(&args(), Event::Reported), Action::Fetch));
}

#[test]
fn a_failed_transaction_is_reported_with_its_reason() {
    let mut miner = polling_miner([9u8; 32]);
    miner.mine(&args(), Event::Polled(Some(good_request("abc123"))));
    miner.mine(&args(), Event::Validation(ValidationEvent::Bus(Ok([3u8; 32]))));
    let action = miner.mine(
        &args(),
        Event::Validation(ValidationEvent::Settled(Err("blockhash expired".to_string()))),
    );
    let outcome = report_of(action);
    assert_eq!(outcome.hashId, "abc123");
    assert!(!outcome.success);
    assert_eq!(outcome.signature, None);
    assert_eq!(outcome.error.as_deref(), Some("blockhash expired"));
}

#[test]
fn a_bad_miner_address_is_reported_at_once() {
    let mut miner = polling_miner([9u8; 32]);
    let action = miner.mine(
        &args(),
        Event::Polled(Some(request("abc123", "not-an-address", "he11owor1d", "0102"))),
    );
    let outcome = report_of(action);
    assert_eq!(outcome.hashId, "abc123");
    assert!(!outcome.success);
    assert_eq!(outcome.error.as_deref(), Some("Invalid Base58 string"));
    assert!(matches!(miner.mine(&args(), Event::Reported), Action::Fetch));
}

#[test]
fn a_bad_hash_is_reported_when_the_bus_is_found() {
    let mut miner = polling_miner([9u8; 32]);
    let action = miner.mine(&args(), Event::Polled(Some(request("h1", ZERO_KEY, "0OIl", "0102"))));
    assert!(matches!(action, Action::Validation(ValidationAction::LocateBus)));
    let action = miner.mine(&args(), Event::Validation(ValidationEvent::Bus(Ok([3u8; 32]))));
    let outcome = report_of(action);
    assert_eq!(outcome.hashId, "h1");
    assert!(!outcome.success);
    assert_eq!(
        outcome.error.as_deref(),
        Some("provided string contained invalid character '0' at byte 0")
    );
}

#[test]
fn a_bad_nonce_is_reported_when_the_bus_is_found() {
    let mut miner = polling_miner([9u8; 32]);
    miner.mine(&args(), Event::Polled(Some(request("n1", ZERO_KEY, "he11owor1d", "012"))));
    let action = miner.mine(&args(), Event::Validation(ValidationEvent::Bus(Ok([3u8; 32]))));
    let outcome = report_of(action);
    assert_eq!(outcome.hashId, "n1");
    assert_eq!(outcome.error.as_deref(), Some("Odd number of digits"));
}

#[test]
fn the_bus_failure_comes_before_the_payload_failures() {
    let mut miner = polling_miner([9u8; 32]);
    miner.mine(&args(), Event::Polled(Some(request("b1", ZERO_KEY, "0OIl", "xyz"))));
    let action = miner.mine(
        &args(),
        Event::Validation(ValidationEvent::Bus(Err("No available bus found".to_string()))),
    );
    assert_eq!(report_of(action).error.as_deref(), Some("No available bus found"));
}

#[test]
fn the_hash_failure_comes_before_the_nonce_failure() {
    let mut miner = polling_miner([9u8; 32]);
    miner.mine(&args(), Event::Polled(Some(request("b1", ZERO_KEY, "0OIl", "xyz"))));
    let action = miner.mine(&args(), Event::Validation(ValidationEvent::Bus(Ok([3u8; 32]))));
    assert_eq!(
        report_of(action).error.as_deref(),
        Some("provided string contained invalid character '0' at byte 0")
    );
}

#[test]
fn a_workflow_ignores_what_it_does_not_wait_for() {
    let workflow = ValidationWorkflow::assign(good_request("abc123"));
    assert!(!workflow.is_done());
    let (workflow, action) =
        workflow.advance(ValidationEvent::Bus(Ok([3u8; 32])), [9u8; 32]);
    assert!(matches!(action, ValidationAction::Nothing));
    assert!(matches!(workflow, ValidationWorkflow::Assigned(_)));
    let (workflow, action) = workflow.advance(ValidationEvent::Begin, [9u8; 32]);
    assert!(matches!(action, ValidationAction::LocateBus));
    let (workflow, action) = workflow.advance(ValidationEvent::Begin, [9u8; 32]);
    assert!(matches!(action, ValidationAction::Nothing));
    assert!(matches!(workflow, ValidationWorkflow::Building(_, key) if key == [0u8; 32]));
    let (workflow, action) =
        workflow.advance(ValidationEvent::Settled(Ok("s".to_string())), [9u8; 32]);
    assert!(matches!(action, ValidationAction::Nothing));
    assert!(!workflow.is_done());
}

#[test]
fn a_workflow_that_has_ended_stays_as_it_is() {
    let workflow = ValidationWorkflow::assign(good_request("abc123"));
    let (workflow, _) = workflow.advance(ValidationEvent::Begin, [9u8; 32]);
    let (workflow, _) = workflow.advance(ValidationEvent::Bus(Ok([3u8; 32])), [9u8; 32]);
    assert!(matches!(&workflow, ValidationWorkflow::Submitting(id) if id == "abc123"));
    let (workflow, action) =
        workflow.advance(ValidationEvent::Settled(Ok("sig".to_string())), [9u8; 32]);
    assert!(matches!(action, ValidationAction::Report(_)));
    assert!(workflow.is_done());
    let mut workflow = workflow;
    for _ in 0..3 {
        let (next, action) =
            workflow.advance(ValidationEvent::Settled(Err("late".to_string())), [9u8; 32]);
        assert!(matches!(action, ValidationAction::Nothing));
        assert!(matches!(&next, ValidationWorkflow::Confirmed(o) if o.success && o.hashId == "abc123"));
        workflow = next;
    }
}

#[test]
fn the_steps_of_a_workflow_on_given_results() {
    let (workflow, action) =
        ValidationWorkflow::begin_with(good_request("a"), Err("bad address".to_string()));
    assert!(matches!(&workflow, ValidationWorkflow::Rejected(o) if o.error.as_deref() == Some("bad address")));
    assert!(matches!(action, ValidationAction::Report(o) if o.hashId == "a" && !o.success));

    let (workflow, action) = ValidationWorkflow::begin_with(good_request("a"), Ok([5u8; 32]));
    assert!(matches!(workflow, ValidationWorkflow::Building(_, key) if key == [5u8; 32]));
    assert!(matches!(action, ValidationAction::LocateBus));

    let (workflow, action) = ValidationWorkflow::build_with(
        good_request("a"),
        [5u8; 32],
        [6u8; 32],
        [7u8; 32],
        Ok(vec![1, 2]),
        Ok(vec![3]),
    );
    assert!(matches!(&workflow, ValidationWorkflow::Submitting(id) if id == "a"));
    assert!(matches!(action, ValidationAction::Send(ix) if ix.data == vec![1, 2, 3]));

    let (_, action) = ValidationWorkflow::build_with(
        good_request("a"),
        [5u8; 32],
        [6u8; 32],
        [7u8; 32],
        Ok(vec![1, 2]),
        Err("bad nonce".to_string()),
    );
    assert!(matches!(action, ValidationAction::Report(o) if o.error.as_deref() == Some("bad nonce")));

    let (workflow, action) = ValidationWorkflow::settle("a".to_string(), Ok("sig".to_string()));
    assert!(matches!(workflow, ValidationWorkflow::Confirmed(_)));
    assert!(matches!(action, ValidationAction::Report(o) if o.success && o.signature.as_deref() == Some("sig")));
}

#[test]
fn outcomes_are_built_and_copied() {
    let failure = ValidationOutcome::failure("id".to_string(), "why".to_string());
    assert_eq!(
        (failure.hashId.as_str(), failure.success, failure.signature.clone(), failure.error.as_deref()),
        ("id", false, None, Some("why"))
    );
    let success = ValidationOutcome::confirmation("id".to_string(), "sig".to_string());
    let copy = success.duplicate();
    assert_eq!(
        (copy.hashId.as_str(), copy.success, copy.signature.as_deref(), copy.error.clone()),
        ("id", true, Some("sig"), None)
    );
}

#[test]
fn submission_of_a_candidate() {
    let found = result(21).best.unwrap();
    let submission = Miner::submission(&found, 0x0a00, 0x0a0b, &[8u8; 32]);
    assert_eq!(submission.hash, "11111111111111111111111111111112");
    assert_eq!(submission.nonce, "0b0a000000000000");
    assert_eq!(submission.difficulty, 21);
    assert_eq!(submission.pattern.challenge, vec![8u8; 32]);
    assert_eq!(submission.pattern.nonce_range, (0x0a00, 0x0a0b));
    assert_eq!(submission.pattern.difficulty, 21);
}

#[test]
fn check_num_cores_warns_above_the_cores_of_the_machine() {
    let miner = Miner::new([0u8; 32]);
    assert_eq!(miner.check_num_cores(0), None);
    assert_eq!(miner.check_num_cores(1), None);
    let warning = miner.check_num_cores(u64::MAX);
    assert!(matches!(warning, Some(n) if n >= 1));
}

#[test]
fn mine_instruction_lists_miner_validator_and_bus() {
    let ix = create_mine_ix([1u8; 32], [2u8; 32], [3u8; 32], vec![10, 11], vec![12, 13, 14]);
    assert_eq!(ix.data, vec![10, 11, 12, 13, 14]);
    let keys: Vec<([u8; 32], bool, bool)> =
        ix.accounts.iter().map(|a| (a.pubkey, a.is_signer, a.is_writable)).collect();
    assert_eq!(
        keys,
        vec![([1u8; 32], false, true), ([2u8; 32], true, true), ([3u8; 32], false, true)]
    );
    let empty = create_mine_ix([1u8; 32], [2u8; 32], [3u8; 32], vec![], vec![]);
    assert!(empty.data.is_empty());
    assert_eq!(mine_program_id(), "ore11111111111111111111111111111111111111111");
}

#[test]
fn proof_state_before_the_chain_is_read() {
    let state = ProofState::default();
    assert_eq!(state.challenge, [0u8; 32]);
    assert_eq!(state.last_reset_at, 0);
    assert_eq!(state.min_difficulty, 16);
    assert_eq!(state.base_reward_rate, 1000);
    assert_eq!(state.top_balance, 0);
}

fn pattern(difficulty: u32, start: u64) -> MiningPattern {
    MiningPattern { challenge: vec![difficulty as u8; 4], nonce_range: (start, start + 9), difficulty }
}

#[test]
fn history_starts_from_what_was_kept() {
    let empty = MiningHistory::new(None);
    assert!(empty.patterns().is_empty());
    let loaded = MiningHistory::new(Some(vec![pattern(3, 0), pattern(8, 10)]));
    assert_eq!(loaded.patterns().len(), 2);
    assert_eq!(loaded.patterns()[1].difficulty, 8);
}

#[test]
fn history_adds_patterns_at_the_end() {
    let mut history = MiningHistory::new(None);
    history.add_pattern(pattern(5, 0));
    history.add_pattern(pattern(2, 10));
    history.add_pattern(pattern(9, 20));
    let kept: Vec<(u32, (u64, u64))> =
        history.patterns().iter().map(|p| (p.difficulty, p.nonce_range)).collect();
    assert_eq!(kept, vec![(5, (0, 9)), (2, (10, 19)), (9, (20, 29))]);
    assert_eq!(history.patterns()[0].challenge, vec![5u8; 4]);
}

#[test]
fn history_gives_the_patterns_at_or_above_a_difficulty() {
    let mut history = MiningHistory::new(Some(vec![pattern(5, 0)]));
    history.add_pattern(pattern(2, 10));
    history.add_pattern(pattern(9, 20));
    history.add_pattern(pattern(5, 30));
    let best: Vec<u64> = history.get_best_patterns(5).iter().map(|p| p.nonce_range.0).collect();
    assert_eq!(best, vec![0, 20, 30]);
    assert_eq!(history.get_best_patterns(0).len(), 4);
    assert_eq!(history.get_best_patterns(9).len(), 1);
    assert!(history.get_best_patterns(10).is_empty());
    assert!(MiningHistory::new(None).get_best_patterns(0).is_empty());
}

#[test]
fn patterns_are_cloned_member_by_member() {
    let p = pattern(7, 70);
    let q = p.clone();
    assert_eq!((q.challenge, q.nonce_range, q.difficulty), (vec![7u8; 4], (70, 79), 7));
}
