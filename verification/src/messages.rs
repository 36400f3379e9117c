//! Hub-native message and request types, carried as plain values.

use vstd::prelude::*;
use crate::ids::{ConsensusStateId, StateMachine, StateMachineHeight};

verus! {

/// A cross-chain post request as the hub records it.
#[derive(Clone, Debug)]
pub struct PostRequest {
    /// Chain the request originates from.
    pub source: StateMachine,
    /// Chain the request is addressed to.
    pub dest: StateMachine,
    /// Nonce of the request on the source chain.
    pub nonce: u64,
    /// Module that dispatched the request, as raw bytes.
    pub from: Vec<u8>,
    /// Module the request is addressed to, as raw bytes.
    pub to: Vec<u8>,
    /// Unix timestamp after which the request can time out.
    pub timeout_timestamp: u64,
    /// Opaque request body.
    pub body: Vec<u8>,
    /// Gas limit the destination should execute the request under.
    pub gas_limit: u64,
}

/// A cross-chain storage-read request.
#[derive(Clone, Debug)]
pub struct GetRequest {
    pub source: StateMachine,
    pub dest: StateMachine,
    pub nonce: u64,
    /// Module that dispatched the request, as raw bytes.
    pub from: Vec<u8>,
    /// Storage keys to read on the destination.
    pub keys: Vec<Vec<u8>>,
    /// Destination height the keys should be read at.
    pub height: u64,
    /// Unix timestamp after which the request can time out.
    pub timeout_timestamp: u64,
    /// Gas limit the destination should execute the response under.
    pub gas_limit: u64,
}

/// Either kind of request.
#[derive(Clone, Debug)]
pub enum Request {
    Post(PostRequest),
    Get(GetRequest),
}

impl Request {
    /// The post request inside, if this is a post request.
    pub fn post_request(&self) -> (r: Option<&PostRequest>)
        ensures
            match r {
                Some(p) => *self == Request::Post(*p),
                None => forall|p: PostRequest| *self != Request::Post(p),
            },
    {
        match self {
            Request::Post(p) => Some(p),
            Request::Get(_) => None,
        }
    }

    /// The get request inside, if this is a get request.
    pub fn get_request(&self) -> (r: Option<&GetRequest>)
        ensures
            match r {
                Some(g) => *self == Request::Get(*g),
                None => forall|g: GetRequest| *self != Request::Get(g),
            },
    {
        match self {
            Request::Get(g) => Some(g),
            Request::Post(_) => None,
        }
    }
}

/// A reply to a post request.
#[derive(Clone, Debug)]
pub struct PostResponse {
    /// The request this responds to.
    pub post: PostRequest,
    /// Opaque response body.
    pub response: Vec<u8>,
    /// Unix timestamp after which the response can time out.
    pub timeout_timestamp: u64,
}

/// One key-value pair returned by a storage read; the value is absent when
/// the key does not exist at the queried height.
#[derive(Clone, Debug)]
pub struct StorageValue {
    pub key: Vec<u8>,
    pub value: Option<Vec<u8>>,
}

/// A reply to a get request: the request and the values read.
#[derive(Clone, Debug)]
pub struct GetResponse {
    pub get: GetRequest,
    pub values: Vec<StorageValue>,
}

/// Either kind of response.
#[derive(Clone, Debug)]
pub enum Response {
    Post(PostResponse),
    Get(GetResponse),
}

/// The datagram of a response message: a batch of requests being answered by
/// storage proof, or a batch of post responses.
#[derive(Clone, Debug)]
pub enum RequestResponse {
    Request(Vec<Request>),
    Response(Vec<Response>),
}

/// A proof anchored at a height of the chain that produced it, carried as
/// opaque bytes until decoded.
#[derive(Clone, Debug)]
pub struct ProofBundle {
    /// Height the proof is anchored at.
    pub height: StateMachineHeight,
    /// Serialized proof bytes.
    pub bytes: Vec<u8>,
}

/// An opaque consensus update for some light client.
#[derive(Clone, Debug)]
pub struct ConsensusMessage {
    /// Serialized consensus proof, verified on chain.
    pub consensus_proof: Vec<u8>,
    /// Light-client instance the update is for.
    pub consensus_state_id: ConsensusStateId,
}

/// A batch of post requests with their membership proof.
#[derive(Clone, Debug)]
pub struct RequestMessage {
    pub requests: Vec<PostRequest>,
    pub membership: ProofBundle,
}

/// A batch of responses with their membership proof.
#[derive(Clone, Debug)]
pub struct ResponseMessage {
    pub datagram: RequestResponse,
    pub membership: ProofBundle,
}

/// A timeout message: requests or responses that were never served, together
/// with the non-membership evidence the destination needs.
#[derive(Clone, Debug)]
pub enum TimeoutMessage {
    Post { timeout_proof: ProofBundle, requests: Vec<Request> },
    PostResponse { timeout_proof: ProofBundle, responses: Vec<PostResponse> },
    Get { requests: Vec<Request> },
}

/// Any message the relayer can submit to a destination.
#[derive(Clone, Debug)]
pub enum Message {
    Consensus(ConsensusMessage),
    Request(RequestMessage),
    Response(ResponseMessage),
    Timeout(TimeoutMessage),
}

/// The initial consensus state installed on a chain when a light client is
/// first created.
#[derive(Clone, Debug)]
pub struct CreateConsensusState {
    /// Serialized initial consensus state.
    pub consensus_state: Vec<u8>,
    /// Tag the new light-client instance is created under.
    pub consensus_state_id: ConsensusStateId,
    /// Challenge period the destination enforces for this client, in seconds.
    pub challenge_period: u64,
    /// Period after which the client is considered expired, in seconds.
    pub unbonding_period: u64,
}

} // verus!
