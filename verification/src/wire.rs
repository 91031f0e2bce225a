//! The messages of the pool protocol as text: JSON objects, read with
//! `serde_json` and written member by member.

use vstd::prelude::*;
use vstd::string::*;
use crate::codec::hex_digit;

verus! {

/// A parsed JSON document.
#[verifier::external_type_specification]
#[verifier::external_body]
pub struct ExJsonValue(serde_json::Value);

/// The error of parsing JSON.
#[verifier::external_type_specification]
#[verifier::external_body]
pub struct ExJsonError(serde_json::Error);

/// The members of a JSON object whose value is a string, by key. Empty for a
/// document that is no object.
pub uninterp spec fn text_members(doc: serde_json::Value) -> Map<Seq<char>, Seq<char>>;

/// The members of a JSON object whose value is a whole number from 0 to
/// `u64::MAX`, by key. Empty for a document that is no object.
pub uninterp spec fn unsigned_members(doc: serde_json::Value) -> Map<Seq<char>, u64>;

/// What `serde_json` reads from a text: its string members and its unsigned
/// members, or nothing where the text is not one JSON document.
pub uninterp spec fn json_members(text: Seq<char>) -> Option<
    (Map<Seq<char>, Seq<char>>, Map<Seq<char>, u64>),
>;

/// Whether JSON writes a character inside a string as it is: every character
/// but the double quote, the backslash and the control characters below the
/// space.
pub open spec fn is_plain(c: char) -> bool {
    let code = c as u32;
    code >= 0x20 && code != 0x22 && code != 0x5c
}

/// How JSON writes one character inside a string: the double quote and the
/// backslash behind a backslash, backspace, tab, line feed, form feed and
/// carriage return by their letter, any other control character as `\u00`
/// and its two hexadecimal digits, and every other character as it is.
pub open spec fn json_escape(c: char) -> Seq<char> {
    let code = c as u32;
    if code == 0x22 {
        seq!['\\', '"']
    } else if code == 0x5c {
        seq!['\\', '\\']
    } else if code == 0x08 {
        seq!['\\', 'b']
    } else if code == 0x09 {
        seq!['\\', 't']
    } else if code == 0x0a {
        seq!['\\', 'n']
    } else if code == 0x0c {
        seq!['\\', 'f']
    } else if code == 0x0d {
        seq!['\\', 'r']
    } else if code < 0x20 {
        seq!['\\', 'u', '0', '0', hex_digit(code as int / 16), hex_digit(code as int % 16)]
    } else {
        seq![c]
    }
}

/// The characters of a string as JSON writes them between the quotes.
pub open spec fn json_escaped(text: Seq<char>) -> Seq<char>
    decreases text.len(),
{
    if text.len() == 0 {
        Seq::empty()
    } else {
        json_escaped(text.drop_last()) + json_escape(text.last())
    }
}

/// A string as JSON writes it: in double quotes, with escapes.
pub open spec fn json_quoted(text: Seq<char>) -> Seq<char> {
    seq!['"'] + json_escaped(text) + seq!['"']
}

/// A text without quotes, backslashes and control characters is written
/// between the quotes as it is.
pub proof fn lemma_plain_text_is_quoted_as_it_is(text: Seq<char>)
    requires
        forall|i: int| 0 <= i < text.len() ==> is_plain(#[trigger] text[i]),
    ensures
        json_escaped(text) == text,
        json_quoted(text) == seq!['"'] + text + seq!['"'],
    decreases text.len(),
{
    if text.len() > 0 {
        lemma_plain_text_is_quoted_as_it_is(text.drop_last());
        assert(is_plain(text.last()));
        assert(json_escaped(text) =~= text.drop_last().push(text.last()));
        assert(text.drop_last().push(text.last()) =~= text);
    }
}

/// The members of an incoming message that the protocol reads, each present
/// only where the message has it with the right type.
pub struct InboundFields {
    pub msg_type: Option<String>,
    pub hash_id: Option<String>,
    pub hash: Option<String>,
    pub difficulty: Option<u64>,
    pub miner_address: Option<String>,
    pub nonce: Option<String>,
    pub signature: Option<String>,
    pub error: Option<String>,
}

/// The members of an incoming message as mathematical values.
pub struct InboundFieldsView {
    pub msg_type: Option<Seq<char>>,
    pub hash_id: Option<Seq<char>>,
    pub hash: Option<Seq<char>>,
    pub difficulty: Option<u64>,
    pub miner_address: Option<Seq<char>>,
    pub nonce: Option<Seq<char>>,
    pub signature: Option<Seq<char>>,
    pub error: Option<Seq<char>>,
}

/// The characters of an optional string.
pub open spec fn text_of(s: Option<String>) -> Option<Seq<char>> {
    match s {
        Some(s) => Some(s@),
        None => None,
    }
}

impl View for InboundFields {
    type V = InboundFieldsView;

    open spec fn view(&self) -> InboundFieldsView {
        InboundFieldsView {
            msg_type: text_of(self.msg_type),
            hash_id: text_of(self.hash_id),
            hash: text_of(self.hash),
            difficulty: self.difficulty,
            miner_address: text_of(self.miner_address),
            nonce: text_of(self.nonce),
            signature: text_of(self.signature),
            error: text_of(self.error),
        }
    }
}

/// The member `key` of a map, if it has one.
pub open spec fn member<V>(members: Map<Seq<char>, V>, key: Seq<char>) -> Option<V> {
    if members.contains_key(key) {
        Some(members[key])
    } else {
        None
    }
}

/// The members that the protocol reads, out of those of a document.
pub open spec fn fields_of(
    texts: Map<Seq<char>, Seq<char>>,
    numbers: Map<Seq<char>, u64>,
) -> InboundFieldsView {
    InboundFieldsView {
        msg_type: member(texts, "type"@),
        hash_id: member(texts, "hashId"@),
        hash: member(texts, "hash"@),
        difficulty: member(numbers, "difficulty"@),
        miner_address: member(texts, "minerAddress"@),
        nonce: member(texts, "nonce"@),
        signature: member(texts, "signature"@),
        error: member(texts, "error"@),
    }
}

/// The digit of a value below ten.
pub open spec fn digit_char(d: nat) -> char {
    ((0x30 + d) as u8) as char
}

/// A number in decimal, without sign or leading zeros.
pub open spec fn decimal_text(n: nat) -> Seq<char>
    decreases n,
{
    if n < 10 {
        seq![digit_char(n)]
    } else {
        decimal_text(n / 10).push(digit_char(n % 10))
    }
}

/// `true` or `false`, as JSON writes a truth value.
pub open spec fn bool_text(b: bool) -> Seq<char> {
    if b {
        "true"@
    } else {
        "false"@
    }
}

/// An optional member's value: the quoted string, or `null`.
pub open spec fn optional_text(quoted: Option<Seq<char>>) -> Seq<char> {
    match quoted {
        Some(q) => q,
        None => "null"@,
    }
}

/// The message by which a node registers, around the quoted address.
pub open spec fn register_frame(address: Seq<char>) -> Seq<char> {
    "{\"address\":"@ + address + ",\"type\":\"register\"}"@
}

/// The message that submits a hash, around its quoted members.
pub open spec fn submit_hash_frame(
    hash: Seq<char>,
    difficulty: u32,
    miner_address: Seq<char>,
    nonce: Seq<char>,
) -> Seq<char> {
    "{\"type\":\"submit_hash\",\"hash\":"@ + hash + ",\"difficulty\":"@ + decimal_text(
        difficulty as nat,
    ) + ",\"minerAddress\":"@ + miner_address + ",\"nonce\":"@ + nonce + "}"@
}

/// The message that reports a validation, around its quoted members.
pub open spec fn validation_result_frame(
    hash_id: Seq<char>,
    success: bool,
    signature: Option<Seq<char>>,
    error: Option<Seq<char>>,
) -> Seq<char> {
    "{\"type\":\"validation_result\",\"hashId\":"@ + hash_id + ",\"success\":"@ + bool_text(
        success,
    ) + ",\"signature\":"@ + optional_text(signature) + ",\"error\":"@ + optional_text(error)
        + "}"@
}

/// `serde_json::from_str` to a `Value`: the document of a text, whose members
/// depend on the text alone, or the error where the text is not JSON.
#[verifier::external_body]
pub(crate) fn parse_json(text: &str) -> (res: Result<serde_json::Value, serde_json::Error>)
    ensures
        res matches Ok(doc) ==> json_members(text@) == Some(
            (text_members(doc), unsigned_members(doc)),
        ),
        res is Err ==> json_members(text@) is None,
{
    serde_json::from_str::<serde_json::Value>(text)
}

/// `Value::get` with a key, for a member that is a string.
#[verifier::external_body]
pub(crate) fn text_member(doc: &serde_json::Value, key: &str) -> (res: Option<String>)
    ensures
        text_of(res) == member(text_members(*doc), key@),
{
    match doc.get(key) {
        Some(serde_json::Value::String(s)) => Some(s.clone()),
        _ => None,
    }
}

/// `Value::get` with a key and `Value::as_u64`, for a member that is a whole
/// number from 0 to `u64::MAX`.
#[verifier::external_body]
pub(crate) fn unsigned_member(doc: &serde_json::Value, key: &str) -> (res: Option<u64>)
    ensures
        res == member(unsigned_members(*doc), key@),
{
    match doc.get(key) {
        Some(v) => v.as_u64(),
        None => None,
    }
}

/// `serde_json::Value::from` a string and the value's `to_string`: the
/// string as JSON writes it, in quotes and with the escapes of
/// `json_escape`.
#[verifier::external_body]
pub(crate) fn quote(text: &str) -> (quoted: String)
    ensures
        quoted@ == json_quoted(text@),
{
    serde_json::Value::from(text).to_string()
}

/// Reads from a document the members that the protocol knows.
pub fn read_fields(doc: &serde_json::Value) -> (fields: InboundFields)
    ensures
        fields@ == fields_of(text_members(*doc), unsigned_members(*doc)),
{
    InboundFields {
        msg_type: text_member(doc, "type"),
        hash_id: text_member(doc, "hashId"),
        hash: text_member(doc, "hash"),
        difficulty: unsigned_member(doc, "difficulty"),
        miner_address: text_member(doc, "minerAddress"),
        nonce: text_member(doc, "nonce"),
        signature: text_member(doc, "signature"),
        error: text_member(doc, "error"),
    }
}

/// Whether two texts are the same.
pub fn same_text(a: &str, b: &str) -> (same: bool)
    ensures
        same == (a@ == b@),
{
    a.to_owned() == b.to_owned()
}

/// The digit of a value below ten, as text.
fn digit_text(d: u64) -> (text: &'static str)
    requires
        d < 10,
    ensures
        text@ == seq![digit_char(d as nat)],
{
    proof {
        reveal_strlit("0");
        reveal_strlit("1");
        reveal_strlit("2");
        reveal_strlit("3");
        reveal_strlit("4");
        reveal_strlit("5");
        reveal_strlit("6");
        reveal_strlit("7");
        reveal_strlit("8");
        reveal_strlit("9");
    }
    let text = if d == 0 {
        "0"
    } else if d == 1 {
        "1"
    } else if d == 2 {
        "2"
    } else if d == 3 {
        "3"
    } else if d == 4 {
        "4"
    } else if d == 5 {
        "5"
    } else if d == 6 {
        "6"
    } else if d == 7 {
        "7"
    } else if d == 8 {
        "8"
    } else {
        "9"
    };
    assert(text@ =~= seq![digit_char(d as nat)]);
    text
}

/// A number in decimal.
pub fn decimal(n: u64) -> (text: String)
    ensures
        text@ == decimal_text(n as nat),
    decreases n,
{
    if n < 10 {
        digit_text(n).to_owned()
    } else {
        let mut text = decimal(n / 10);
        text.append(digit_text(n % 10));
        assert(text@ =~= decimal_text((n / 10) as nat).push(digit_char((n % 10) as nat)));
        text
    }
}

/// The registration message around an address that is already quoted.
pub fn frame_register(address: &str) -> (frame: String)
    ensures
        frame@ == register_frame(address@),
{
    let mut frame = String::new();
    frame.append("{\"address\":");
    frame.append(address);
    frame.append(",\"type\":\"register\"}");
    assert(frame@ =~= register_frame(address@));
    frame
}

/// The submission message around members that are already quoted.
pub fn frame_submit_hash(hash: &str, difficulty: u32, miner_address: &str, nonce: &str) -> (frame:
    String)
    ensures
        frame@ == submit_hash_frame(hash@, difficulty, miner_address@, nonce@),
{
    let number = decimal(widen(difficulty));
    let mut frame = String::new();
    frame.append("{\"type\":\"submit_hash\",\"hash\":");
    frame.append(hash);
    frame.append(",\"difficulty\":");
    frame.append(number.as_str());
    frame.append(",\"minerAddress\":");
    frame.append(miner_address);
    frame.append(",\"nonce\":");
    frame.append(nonce);
    frame.append("}");
    assert(frame@ =~= submit_hash_frame(hash@, difficulty, miner_address@, nonce@));
    frame
}

/// The report message around members that are already quoted.
pub fn frame_validation_result(
    hash_id: &str,
    success: bool,
    signature: Option<&str>,
    error: Option<&str>,
) -> (frame: String)
    ensures
        frame@ == validation_result_frame(
            hash_id@,
            success,
            match signature {
                Some(s) => Some(s@),
                None => None,
            },
            match error {
                Some(e) => Some(e@),
                None => None,
            },
        ),
{
    let mut frame = String::new();
    frame.append("{\"type\":\"validation_result\",\"hashId\":");
    frame.append(hash_id);
    frame.append(",\"success\":");
    frame.append(
        if success {
            "true"
        } else {
            "false"
        },
    );
    frame.append(",\"signature\":");
    frame.append(
        match signature {
            Some(s) => s,
            None => "null",
        },
    );
    frame.append(",\"error\":");
    frame.append(
        match error {
            Some(e) => e,
            None => "null",
        },
    );
    frame.append("}");
    assert(frame@ =~= validation_result_frame(
        hash_id@,
        success,
        match signature {
            Some(s) => Some(s@),
            None => None,
        },
        match error {
            Some(e) => Some(e@),
            None => None,
        },
    ));
    frame
}

/// A difficulty as a 64-bit number.
fn widen(n: u32) -> (wide: u64)
    ensures
        wide == n,
{
    n as u64
}

} // verus!
