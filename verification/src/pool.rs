//! The submission of a hash to the pool over HTTP: what is posted, and what
//! the answer means.

use vstd::prelude::*;
use vstd::string::*;
use crate::wire::{decimal, decimal_text, json_quoted, quote};

verus! {

/// Where the pool takes submissions over HTTP.
pub fn pool_api_url() -> (url: &'static str)
    ensures
        url@ == "http://localhost:3000/api/hashes"@,
{
    "http://localhost:3000/api/hashes"
}

/// The body of a submission, around its quoted members.
pub open spec fn submission_body(hash: Seq<char>, difficulty: u32, miner_address: Seq<char>) -> Seq<
    char,
> {
    "{\"difficulty\":"@ + decimal_text(difficulty as nat) + ",\"hash\":"@ + hash
        + ",\"minerAddress\":"@ + miner_address + "}"@
}

/// Whether an HTTP status says that the request succeeded.
pub open spec fn is_success(status: u16) -> bool {
    200 <= status < 300
}

/// What is said of a submission that the pool did not take.
pub open spec fn refusal(status_text: Seq<char>) -> Seq<char> {
    "Failed to submit hash to pool: "@ + status_text
}

/// The body of a submission around members that are already quoted.
pub fn frame_submission(hash: &str, difficulty: u32, miner_address: &str) -> (body: String)
    ensures
        body@ == submission_body(hash@, difficulty, miner_address@),
{
    let number = decimal(widen(difficulty));
    let mut body = String::new();
    body.append("{\"difficulty\":");
    body.append(number.as_str());
    body.append(",\"hash\":");
    body.append(hash);
    body.append(",\"minerAddress\":");
    body.append(miner_address);
    body.append("}");
    assert(body@ =~= submission_body(hash@, difficulty, miner_address@));
    body
}

/// The body that is posted to submit a hash of the miner at
/// `miner_address`.
pub fn submit_hash_to_pool(hash: String, difficulty: u32, miner_address: String) -> (body: String)
    ensures
        body@ == submission_body(json_quoted(hash@), difficulty, json_quoted(miner_address@)),
{
    let hash = quote(hash.as_str());
    let miner = quote(miner_address.as_str());
    frame_submission(hash.as_str(), difficulty, miner.as_str())
}

/// What the pool's answer means for a submission: it went through where the
/// status is one of success, and failed with the status in words where it is
/// not.
pub fn submission_result(status: u16, status_text: &str) -> (res: Result<(), String>)
    ensures
        is_success(status) ==> res is Ok,
        !is_success(status) ==> (res matches Err(reason) && reason@ == refusal(status_text@)),
{
    if 200 <= status && status < 300 {
        Ok(())
    } else {
        let mut reason = String::new();
        reason.append("Failed to submit hash to pool: ");
        reason.append(status_text);
        assert(reason@ =~= refusal(status_text@));
        Err(reason)
    }
}

/// A difficulty as a 64-bit number.
fn widen(n: u32) -> (wide: u64)
    ensures
        wide == n,
{
    n as u64
}

} // verus!
