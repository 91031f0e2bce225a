//! The session with the pool coordinator: what a node sends, what it makes
//! of each message it receives, and the one validation assignment it keeps.
//!
//! The session holds a single pending assignment. An assignment that arrives
//! replaces the one before it, whether or not that one was read; reading the
//! assignment leaves it in place.

use vstd::prelude::*;
use vstd::string::*;
use crate::wire::{
    InboundFields, InboundFieldsView, fields_of, frame_register, frame_submit_hash,
    frame_validation_result, json_members, json_quoted, parse_json, quote, read_fields,
    register_frame, same_text, submit_hash_frame, validation_result_frame,
};

verus! {

/// The duty to check another miner's hash, as the pool assigns it.
#[allow(non_snake_case)]
#[derive(Debug, Clone)]
pub struct ValidationRequest {
    pub msg_type: String,
    pub hashId: String,
    pub hash: String,
    pub difficulty: u32,
    pub minerAddress: String,
    pub nonce: String,
}

/// An assignment as a mathematical value.
pub struct ValidationRequestView {
    pub msg_type: Seq<char>,
    pub hash_id: Seq<char>,
    pub hash: Seq<char>,
    pub difficulty: u32,
    pub miner_address: Seq<char>,
    pub nonce: Seq<char>,
}

impl View for ValidationRequest {
    type V = ValidationRequestView;

    open spec fn view(&self) -> ValidationRequestView {
        ValidationRequestView {
            msg_type: self.msg_type@,
            hash_id: self.hashId@,
            hash: self.hash@,
            difficulty: self.difficulty,
            miner_address: self.minerAddress@,
            nonce: self.nonce@,
        }
    }
}

/// What a received message meant to the session.
#[derive(Debug, Clone)]
pub enum Inbound {
    /// A validation assignment, which is now the pending one.
    Assigned,
    /// A hash that this node submitted was accepted, with this signature.
    HashConfirmed(String),
    /// A hash that this node submitted was turned down, for this reason.
    HashRejected(String),
    /// Any other message, and an assignment with a member missing.
    Ignored,
}

/// The meaning of a received message as a mathematical value.
pub enum InboundView {
    Assigned,
    HashConfirmed(Seq<char>),
    HashRejected(Seq<char>),
    Ignored,
}

impl View for Inbound {
    type V = InboundView;

    open spec fn view(&self) -> InboundView {
        match self {
            Inbound::Assigned => InboundView::Assigned,
            Inbound::HashConfirmed(s) => InboundView::HashConfirmed(s@),
            Inbound::HashRejected(s) => InboundView::HashRejected(s@),
            Inbound::Ignored => InboundView::Ignored,
        }
    }
}

/// Where the connection of a session stands.
#[derive(Clone, Copy, Debug, PartialEq, Eq, Structural)]
pub enum SessionState {
    /// No connection; where every session starts and ends.
    Disconnected,
    /// The connection is being opened.
    Connecting,
    /// The connection is open and the node has registered.
    Registered,
    /// Messages are coming in.
    Streaming,
}

/// What happens to the connection of a session.
#[derive(Clone, Copy, Debug, PartialEq, Eq, Structural)]
pub enum SessionStep {
    /// The caller sets out to connect.
    Dial,
    /// The registration is sent.
    Register,
    /// A message is taken in.
    Message,
    /// The connection closes or fails.
    Drop,
}

/// The session of one node with the pool.
pub struct PoolClient {
    ws_url: String,
    miner_address: String,
    state: SessionState,
    validation_request: Option<ValidationRequest>,
}

/// A session as a mathematical value.
pub struct PoolClientView {
    pub ws_url: Seq<char>,
    pub miner_address: Seq<char>,
    pub state: SessionState,
    pub pending: Option<ValidationRequestView>,
}

/// The state of a connection after a step. A connection goes from
/// `Disconnected` over `Connecting` and `Registered` to `Streaming`, one step
/// at a time, and from anywhere back to `Disconnected`; a step that is out of
/// turn leaves the state as it is.
pub open spec fn state_after(state: SessionState, step: SessionStep) -> SessionState {
    match (state, step) {
        (_, SessionStep::Drop) => SessionState::Disconnected,
        (SessionState::Disconnected, SessionStep::Dial) => SessionState::Connecting,
        (SessionState::Connecting, SessionStep::Register) => SessionState::Registered,
        (SessionState::Registered, SessionStep::Message) => SessionState::Streaming,
        _ => state,
    }
}

/// No state of a connection is skipped: a session comes to `Connecting` only
/// from `Disconnected`, to `Registered` only from `Connecting`, and to
/// `Streaming` only from `Registered`.
pub proof fn lemma_session_lifecycle(state: SessionState, step: SessionStep)
    ensures
        ({
            let next = state_after(state, step);
            &&& next == SessionState::Connecting ==> state == SessionState::Disconnected || state
                == next
            &&& next == SessionState::Registered ==> state == SessionState::Connecting || state
                == next
            &&& next == SessionState::Streaming ==> state == SessionState::Registered || state
                == next
            &&& step == SessionStep::Drop ==> next == SessionState::Disconnected
        }),
{
}

/// The view of an optional assignment.
pub open spec fn request_view(request: Option<ValidationRequest>) -> Option<ValidationRequestView> {
    match request {
        Some(r) => Some(r@),
        None => None,
    }
}

/// The assignment that a message carries: all six members, the difficulty
/// within 32 bits.
pub open spec fn assignment_of(fields: InboundFieldsView) -> Option<ValidationRequestView> {
    if fields.msg_type is Some && fields.hash_id is Some && fields.hash is Some
        && fields.difficulty is Some && fields.difficulty->0 <= u32::MAX
        && fields.miner_address is Some && fields.nonce is Some {
        Some(
            ValidationRequestView {
                msg_type: fields.msg_type->0,
                hash_id: fields.hash_id->0,
                hash: fields.hash->0,
                difficulty: fields.difficulty->0 as u32,
                miner_address: fields.miner_address->0,
                nonce: fields.nonce->0,
            },
        )
    } else {
        None
    }
}

/// A member that may be missing, as text: empty where it is.
pub open spec fn or_empty(text: Option<Seq<char>>) -> Seq<char> {
    match text {
        Some(t) => t,
        None => Seq::empty(),
    }
}

/// What a message means, by its `type`.
pub open spec fn meaning_of(fields: InboundFieldsView) -> InboundView {
    if fields.msg_type == Some("validate_hash"@) {
        if assignment_of(fields) is Some {
            InboundView::Assigned
        } else {
            InboundView::Ignored
        }
    } else if fields.msg_type == Some("hash_confirmed"@) {
        InboundView::HashConfirmed(or_empty(fields.signature))
    } else if fields.msg_type == Some("hash_rejected"@) {
        InboundView::HashRejected(or_empty(fields.error))
    } else {
        InboundView::Ignored
    }
}

/// The pending assignment after a message: the one it carries, where it is
/// an assignment; else the one held before.
pub open spec fn pending_after(
    pending: Option<ValidationRequestView>,
    fields: InboundFieldsView,
) -> Option<ValidationRequestView> {
    if fields.msg_type == Some("validate_hash"@) && assignment_of(fields) is Some {
        assignment_of(fields)
    } else {
        pending
    }
}

impl InboundFields {
    /// The assignment that the members make up, if none is missing and the
    /// difficulty fits in 32 bits.
    pub fn into_assignment(self) -> (request: Option<ValidationRequest>)
        ensures
            request_view(request) == assignment_of(self@),
    {
        match (self.msg_type, self.hash_id, self.hash, self.difficulty, self.miner_address, self.nonce) {
            (Some(msg_type), Some(hash_id), Some(hash), Some(difficulty), Some(miner), Some(nonce)) => {
                if difficulty <= 0xffff_ffff {
                    Some(
                        ValidationRequest {
                            msg_type,
                            hashId: hash_id,
                            hash,
                            difficulty: narrow(difficulty),
                            minerAddress: miner,
                            nonce,
                        },
                    )
                } else {
                    None
                }
            },
            _ => None,
        }
    }
}

/// A number that fits in 32 bits, as one.
fn narrow(n: u64) -> (small: u32)
    requires
        n <= u32::MAX,
    ensures
        small == n,
{
    n as u32
}

/// The text of a member that may be missing: empty where it is.
fn text_or_empty(text: Option<String>) -> (out: String)
    ensures
        out@ == or_empty(crate::wire::text_of(text)),
{
    match text {
        Some(t) => t,
        None => String::new(),
    }
}

/// Whether a message's `type` is `tag`.
fn has_type(msg_type: &Option<String>, tag: &str) -> (same: bool)
    ensures
        same == (crate::wire::text_of(*msg_type) == Some(tag@)),
{
    match msg_type {
        Some(t) => same_text(t.as_str(), tag),
        None => false,
    }
}

impl View for PoolClient {
    type V = PoolClientView;

    closed spec fn view(&self) -> PoolClientView {
        PoolClientView {
            ws_url: self.ws_url@,
            miner_address: self.miner_address@,
            state: self.state,
            pending: request_view(self.validation_request),
        }
    }
}

impl PoolClient {
    /// A session with the pool at `ws_url` for the node whose address is
    /// `miner_address`. It is not connected, and no assignment is pending.
    pub fn new(ws_url: String, miner_address: String) -> (client: PoolClient)
        ensures
            client@ == (PoolClientView {
                ws_url: ws_url@,
                miner_address: miner_address@,
                state: SessionState::Disconnected,
                pending: None,
            }),
    {
        PoolClient {
            ws_url,
            miner_address,
            state: SessionState::Disconnected,
            validation_request: None,
        }
    }

    /// Where the connection stands.
    pub fn state(&self) -> (state: SessionState)
        ensures
            state == self@.state,
    {
        self.state
    }

    /// Takes one step of the connection.
    fn step(&mut self, step: SessionStep)
        ensures
            final(self)@ == (PoolClientView {
                state: state_after(old(self)@.state, step),
                ..old(self)@
            }),
    {
        let next = match (self.state, step) {
            (_, SessionStep::Drop) => SessionState::Disconnected,
            (SessionState::Disconnected, SessionStep::Dial) => SessionState::Connecting,
            (SessionState::Connecting, SessionStep::Register) => SessionState::Registered,
            (SessionState::Registered, SessionStep::Message) => SessionState::Streaming,
            (state, _) => state,
        };
        self.state = next;
    }

    /// Notes that the caller sets out to open the connection.
    pub fn dial(&mut self)
        ensures
            final(self)@ == (PoolClientView {
                state: state_after(old(self)@.state, SessionStep::Dial),
                ..old(self)@
            }),
    {
        self.step(SessionStep::Dial)
    }

    /// Notes that the connection has closed or failed. What is pending stays
    /// pending.
    pub fn disconnect(&mut self)
        ensures
            final(self)@ == (PoolClientView { state: SessionState::Disconnected, ..old(self)@ }),
    {
        self.step(SessionStep::Drop)
    }

    /// Where the pool listens.
    pub fn ws_url(&self) -> (url: &str)
        ensures
            url@ == self@.ws_url,
    {
        self.ws_url.as_str()
    }

    /// The first message of a connection: it registers this node with its
    /// address. The session counts as registered once the connection was
    /// being opened.
    pub fn connect(&mut self) -> (frame: String)
        ensures
            frame@ == register_frame(json_quoted(old(self)@.miner_address)),
            final(self)@ == (PoolClientView {
                state: state_after(old(self)@.state, SessionStep::Register),
                ..old(self)@
            }),
    {
        let address = quote(self.miner_address.as_str());
        self.step(SessionStep::Register);
        frame_register(address.as_str())
    }

    /// Takes in the members of one received message. An assignment becomes
    /// the pending one, in place of any held before; every other message
    /// leaves the pending one as it is.
    pub fn dispatch(&mut self, fields: InboundFields) -> (meaning: Inbound)
        ensures
            meaning@ == meaning_of(fields@),
            final(self)@ == (PoolClientView {
                state: state_after(old(self)@.state, SessionStep::Message),
                pending: pending_after(old(self)@.pending, fields@),
                ..old(self)@
            }),
    {
        self.step(SessionStep::Message);
        if has_type(&fields.msg_type, "validate_hash") {
            match fields.into_assignment() {
                Some(request) => {
                    self.validation_request = Some(request);
                    Inbound::Assigned
                },
                None => Inbound::Ignored,
            }
        } else if has_type(&fields.msg_type, "hash_confirmed") {
            Inbound::HashConfirmed(text_or_empty(fields.signature))
        } else if has_type(&fields.msg_type, "hash_rejected") {
            Inbound::HashRejected(text_or_empty(fields.error))
        } else {
            Inbound::Ignored
        }
    }

    /// Takes in one received text message. A text that is not JSON is an
    /// error, which ends the connection; anything else is dispatched by its
    /// `type`.
    pub fn receive(&mut self, text: &str) -> (res: Result<Inbound, String>)
        ensures
            res is Err <==> json_members(text@) is None,
            res is Err ==> final(self)@ == (PoolClientView {
                state: SessionState::Disconnected,
                ..old(self)@
            }),
            res matches Ok(meaning) ==> {
                let members = json_members(text@)->0;
                let fields = fields_of(members.0, members.1);
                &&& meaning@ == meaning_of(fields)
                &&& final(self)@ == (PoolClientView {
                    state: state_after(old(self)@.state, SessionStep::Message),
                    pending: pending_after(old(self)@.pending, fields),
                    ..old(self)@
                })
            },
    {
        match parse_json(text) {
            Ok(doc) => {
                let fields = read_fields(&doc);
                Ok(self.dispatch(fields))
            },
            Err(e) => {
                self.disconnect();
                Err(e.to_string())
            },
        }
    }

    /// The message that submits a hash of this node.
    pub fn submit_hash(&self, hash: String, difficulty: u32, nonce: String) -> (frame: String)
        ensures
            frame@ == submit_hash_frame(
                json_quoted(hash@),
                difficulty,
                json_quoted(self@.miner_address),
                json_quoted(nonce@),
            ),
    {
        let hash = quote(hash.as_str());
        let miner = quote(self.miner_address.as_str());
        let nonce = quote(nonce.as_str());
        frame_submit_hash(hash.as_str(), difficulty, miner.as_str(), nonce.as_str())
    }

    /// The pending assignment, which stays pending.
    pub fn get_validation_request(&self) -> (request: Option<ValidationRequest>)
        ensures
            request_view(request) == self@.pending,
    {
        match &self.validation_request {
            Some(r) => Some(
                ValidationRequest {
                    msg_type: r.msg_type.clone(),
                    hashId: r.hashId.clone(),
                    hash: r.hash.clone(),
                    difficulty: r.difficulty,
                    minerAddress: r.minerAddress.clone(),
                    nonce: r.nonce.clone(),
                },
            ),
            None => None,
        }
    }

    /// The message that reports the outcome of a validation.
    pub fn submit_validation_result(
        &self,
        hash_id: String,
        success: bool,
        signature: Option<String>,
        error: Option<String>,
    ) -> (frame: String)
        ensures
            frame@ == validation_result_frame(
                json_quoted(hash_id@),
                success,
                match signature {
                    Some(s) => Some(json_quoted(s@)),
                    None => None,
                },
                match error {
                    Some(e) => Some(json_quoted(e@)),
                    None => None,
                },
            ),
    {
        let hash_id = quote(hash_id.as_str());
        let signature = match signature {
            Some(s) => Some(quote(s.as_str())),
            None => None,
        };
        let error = match error {
            Some(e) => Some(quote(e.as_str())),
            None => None,
        };
        frame_validation_result(
            hash_id.as_str(),
            success,
            match &signature {
                Some(s) => Some(s.as_str()),
                None => None,
            },
            match &error {
                Some(e) => Some(e.as_str()),
                None => None,
            },
        )
    }
}

} // verus!
