//! The plain data that the node exchanges with the chain: the state of a
//! proof account, the instruction that confirms a hash, and amounts as text.

use vstd::prelude::*;
use vstd::string::*;
use crate::wire::{decimal, decimal_text};

verus! {

/// What the chain holds for one miner: the challenge of the current epoch
/// and the terms under which a solution is accepted.
#[derive(Clone, Copy, Debug)]
pub struct ProofState {
    pub challenge: [u8; 32],
    pub last_reset_at: i64,
    pub min_difficulty: u32,
    pub base_reward_rate: u64,
    pub top_balance: u64,
}

/// An account that an instruction touches.
#[derive(Clone, Copy, Debug)]
pub struct AccountMeta {
    pub pubkey: [u8; 32],
    pub is_signer: bool,
    pub is_writable: bool,
}

/// An instruction for the program that confirms hashes.
#[derive(Debug)]
pub struct Instruction {
    pub accounts: Vec<AccountMeta>,
    pub data: Vec<u8>,
}

/// An account as a mathematical value.
pub struct AccountMetaView {
    pub pubkey: Seq<u8>,
    pub is_signer: bool,
    pub is_writable: bool,
}

/// An instruction as a mathematical value.
pub struct InstructionView {
    pub accounts: Seq<AccountMetaView>,
    pub data: Seq<u8>,
}

impl View for AccountMeta {
    type V = AccountMetaView;

    open spec fn view(&self) -> AccountMetaView {
        AccountMetaView {
            pubkey: self.pubkey@,
            is_signer: self.is_signer,
            is_writable: self.is_writable,
        }
    }
}

impl View for Instruction {
    type V = InstructionView;

    open spec fn view(&self) -> InstructionView {
        InstructionView {
            accounts: self.accounts@.map_values(|a: AccountMeta| a@),
            data: self.data@,
        }
    }
}

/// A writable account that signs or does not.
pub open spec fn writable(pubkey: Seq<u8>, is_signer: bool) -> AccountMetaView {
    AccountMetaView { pubkey, is_signer, is_writable: true }
}

/// The instruction by which `validator` confirms a hash of `miner`: the
/// miner's account, the validator's, which signs, and the bus, all writable;
/// the data is the hash followed by the nonce.
pub open spec fn mine_ix(
    miner: Seq<u8>,
    validator: Seq<u8>,
    bus: Seq<u8>,
    hash: Seq<u8>,
    nonce: Seq<u8>,
) -> InstructionView {
    InstructionView {
        accounts: seq![writable(miner, false), writable(validator, true), writable(bus, false)],
        data: hash + nonce,
    }
}

/// The address of the program that confirms hashes.
pub fn mine_program_id() -> (id: &'static str)
    ensures
        id@ == "ore11111111111111111111111111111111111111111"@,
{
    "ore11111111111111111111111111111111111111111"
}

impl Default for ProofState {
    /// The state before anything is read from the chain: the zero challenge
    /// and the starting terms.
    fn default() -> (state: ProofState)
        ensures
            state.challenge@ == Seq::new(32, |i: int| 0u8),
            state.last_reset_at == 0,
            state.min_difficulty == 16,
            state.base_reward_rate == 1000,
            state.top_balance == 0,
    {
        let state = ProofState {
            challenge: [0u8; 32],
            last_reset_at: 0,
            min_difficulty: 16,
            base_reward_rate: 1000,
            top_balance: 0,
        };
        assert(state.challenge@ =~= Seq::new(32, |i: int| 0u8));
        state
    }
}

/// Builds the instruction by which `validator` confirms a hash of `miner`.
pub fn create_mine_ix(
    miner: [u8; 32],
    validator: [u8; 32],
    bus: [u8; 32],
    hash: Vec<u8>,
    nonce: Vec<u8>,
) -> (ix: Instruction)
    ensures
        ix@ == mine_ix(miner@, validator@, bus@, hash@, nonce@),
{
    let mut accounts: Vec<AccountMeta> = Vec::new();
    accounts.push(AccountMeta { pubkey: miner, is_signer: false, is_writable: true });
    accounts.push(AccountMeta { pubkey: validator, is_signer: true, is_writable: true });
    accounts.push(AccountMeta { pubkey: bus, is_signer: false, is_writable: true });
    let mut data = hash;
    let mut i: usize = 0;
    while i < nonce.len()
        invariant
            i <= nonce.len(),
            data@ == hash@ + nonce@.take(i as int),
        decreases nonce.len() - i,
    {
        data.push(nonce[i]);
        assert(nonce@.take(i + 1) == nonce@.take(i as int).push(nonce@[i as int]));
        i += 1;
    }
    assert(nonce@.take(nonce.len() as int) == nonce@);
    let ix = Instruction { accounts, data };
    assert(ix@.accounts =~= mine_ix(miner@, validator@, bus@, hash@, nonce@).accounts);
    ix
}

/// Whether a character is white space.
pub open spec fn is_white_space(c: char) -> bool {
    let code = c as u32;
    ||| 0x09 <= code <= 0x0d
    ||| code == 0x20
    ||| code == 0x85
    ||| code == 0xa0
    ||| code == 0x1680
    ||| 0x2000 <= code <= 0x200a
    ||| code == 0x2028
    ||| code == 0x2029
    ||| code == 0x202f
    ||| code == 0x205f
    ||| code == 0x3000
}

/// Whether a character is the letter by which a question is confirmed.
pub open spec fn is_yes_letter(c: char) -> bool {
    c == 'y' || c == 'Y'
}

/// Whether an answer confirms: it is the letter `y`, of either case, with
/// nothing but white space around it.
pub open spec fn confirms(answer: Seq<char>) -> bool {
    exists|i: int|
        0 <= i < answer.len() && is_yes_letter(#[trigger] answer[i]) && forall|j: int|
            0 <= j < answer.len() && j != i ==> is_white_space(#[trigger] answer[j])
}

/// The text from which the address of the proof account `index` is made.
pub open spec fn proof_seed_text(index: u64) -> Seq<char> {
    "proof"@ + decimal_text(index as nat)
}

/// Whether a character is white space.
fn white_space(c: char) -> (white: bool)
    ensures
        white == is_white_space(c),
{
    let code: u32 = c as u32;
    (0x09 <= code && code <= 0x0d) || code == 0x20 || code == 0x85 || code == 0xa0 || code
        == 0x1680 || (0x2000 <= code && code <= 0x200a) || code == 0x2028 || code == 0x2029 || code
        == 0x202f || code == 0x205f || code == 0x3000
}

/// Whether the answer to a question confirms it.
pub fn is_confirmation(answer: &str) -> (yes: bool)
    ensures
        yes == confirms(answer@),
{
    let len = answer.unicode_len();
    let mut letters: usize = 0;
    let mut spoiled: bool = false;
    let ghost mut first: int = 0;
    let ghost mut second: int = 0;
    let mut i: usize = 0;
    while i < len
        invariant
            i <= len,
            len == answer@.len(),
            letters <= i,
            !spoiled && letters == 0 ==> forall|j: int| 0 <= j < i ==> is_white_space(answer@[j]),
            !spoiled && letters == 1 ==> 0 <= first < i && is_yes_letter(answer@[first])
                && forall|j: int| 0 <= j < i && j != first ==> is_white_space(answer@[j]),
            !spoiled ==> letters <= 1,
            spoiled ==> 0 <= first < second < i + 1 && !is_white_space(answer@[first]) && (
            !is_yes_letter(answer@[first]) || (second < i && !is_white_space(answer@[second]))),
        decreases len - i,
    {
        let c = answer.get_char(i);
        if !white_space(c) {
            if spoiled {
            } else if (c == 'y' || c == 'Y') && letters == 0 {
                letters = 1;
                proof {
                    first = i as int;
                }
            } else if letters == 0 {
                spoiled = true;
                proof {
                    first = i as int;
                    second = i + 1;
                }
            } else {
                spoiled = true;
                proof {
                    second = i as int;
                }
            }
        }
        i += 1;
    }
    proof {
        if spoiled {
            assert(!is_white_space(answer@[first]));
            if confirms(answer@) {
                let k = choose|k: int|
                    0 <= k < answer@.len() && is_yes_letter(#[trigger] answer@[k]) && forall|j: int|
                        0 <= j < answer@.len() && j != k ==> is_white_space(#[trigger] answer@[j]);
                if k != first {
                    assert(is_white_space(answer@[first]));
                } else {
                    assert(is_white_space(answer@[second]));
                }
            }
        } else if letters == 0 {
            if confirms(answer@) {
                let k = choose|k: int|
                    0 <= k < answer@.len() && is_yes_letter(#[trigger] answer@[k]) && forall|j: int|
                        0 <= j < answer@.len() && j != k ==> is_white_space(#[trigger] answer@[j]);
                assert(is_white_space(answer@[k]));
            }
        } else {
            assert(is_yes_letter(answer@[first]));
        }
    }
    !spoiled && letters == 1
}

/// The text from which the address of the proof account `index` is made.
pub fn proof_seed(index: u64) -> (seed: String)
    ensures
        seed@ == proof_seed_text(index),
{
    let number = decimal(index);
    let mut seed = String::new();
    seed.append("proof");
    seed.append(number.as_str());
    assert(seed@ =~= proof_seed_text(index));
    seed
}

/// An amount in decimal.
pub fn amount_u64_to_string(amount: u64) -> (text: String)
    ensures
        text@ == decimal_text(amount as nat),
{
    decimal(amount)
}

} // verus!
