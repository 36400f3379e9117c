//! Translation of hub-native messages into the EVM handler's wire structures.
//!
//! The encoder is side-effect free: it decodes the membership or storage
//! proof carried by a message, derives each leaf's k-index from its leaf
//! index, renders chain tags into their byte names, and assembles the
//! destination call, with leaves ordered by leaf index as the destination's
//! verifier requires. It rejects, rather than panics on, undecodable proofs
//! and unexpected chain tags.

use vstd::prelude::*;
use crate::ids::{EthereumInstance, StateMachine};
use crate::messages::{GetRequest, PostRequest, PostResponse};

verus! {

broadcast use vstd::seq_lib::group_to_multiset_ensures;

/// The decimal digits of `v`, as ASCII bytes.
pub open spec fn spec_decimal(v: nat) -> Seq<u8>
    decreases v,
{
    if v < 10 {
        seq![(48 + v) as u8]
    } else {
        spec_decimal(v / 10) + seq![(48 + v % 10) as u8]
    }
}

/// Appends the decimal rendering of `v` to `out`.
pub fn push_decimal(v: u32, out: &mut Vec<u8>)
    ensures
        final(out)@ == old(out)@ + spec_decimal(v as nat),
    decreases v,
{
    if v < 10 {
        out.push(48 + (v as u8));
        proof {
            assert(final(out)@ =~= old(out)@ + spec_decimal(v as nat));
        }
    } else {
        push_decimal(v / 10, out);
        out.push(48 + ((v % 10) as u8));
        proof {
            assert(final(out)@ =~= old(out)@ + spec_decimal(v as nat));
        }
    }
}

/// The byte name under which a chain tag travels in EVM wire structures:
/// `EVM-` / `POLKADOT-` / `KUSAMA-` followed by the decimal id, a four-letter
/// name for the known Ethereum environments, and the raw four-byte tag for
/// other Substrate chains.
pub open spec fn spec_sm_bytes(sm: StateMachine) -> Seq<u8> {
    match sm {
        // "EVM-"
        StateMachine::Evm(id) => seq![69u8, 86u8, 77u8, 45u8] + spec_decimal(id as nat),
        StateMachine::Ethereum(e) => match e {
            // "ETHE"
            EthereumInstance::ExecutionLayer => seq![69u8, 84u8, 72u8, 69u8],
            // "ARBI"
            EthereumInstance::Arbitrum => seq![65u8, 82u8, 66u8, 73u8],
            // "OPTI"
            EthereumInstance::Optimism => seq![79u8, 80u8, 84u8, 73u8],
            // "BASE"
            EthereumInstance::Base => seq![66u8, 65u8, 83u8, 69u8],
        },
        // "POLKADOT-"
        StateMachine::Polkadot(id) => seq![80u8, 79u8, 76u8, 75u8, 65u8, 68u8, 79u8, 84u8, 45u8]
            + spec_decimal(id as nat),
        // "KUSAMA-"
        StateMachine::Kusama(id) => seq![75u8, 85u8, 83u8, 65u8, 77u8, 65u8, 45u8]
            + spec_decimal(id as nat),
        StateMachine::Substrate(id) => id@,
    }
}

/// Renders a chain tag into its wire byte name.
pub fn state_machine_bytes(sm: &StateMachine) -> (r: Vec<u8>)
    ensures
        r@ == spec_sm_bytes(*sm),
{
    let mut out: Vec<u8> = Vec::new();
    match sm {
        StateMachine::Evm(id) => {
            out.push(69);
            out.push(86);
            out.push(77);
            out.push(45);
            push_decimal(*id, &mut out);
            proof {
                assert(out@ =~= spec_sm_bytes(*sm));
            }
        },
        StateMachine::Ethereum(e) => {
            match e {
                EthereumInstance::ExecutionLayer => {
                    out.push(69);
                    out.push(84);
                    out.push(72);
                    out.push(69);
                },
                EthereumInstance::Arbitrum => {
                    out.push(65);
                    out.push(82);
                    out.push(66);
                    out.push(73);
                },
                EthereumInstance::Optimism => {
                    out.push(79);
                    out.push(80);
                    out.push(84);
                    out.push(73);
                },
                EthereumInstance::Base => {
                    out.push(66);
                    out.push(65);
                    out.push(83);
                    out.push(69);
                },
            }
            proof {
                assert(out@ =~= spec_sm_bytes(*sm));
            }
        },
        StateMachine::Polkadot(id) => {
            out.push(80);
            out.push(79);
            out.push(76);
            out.push(75);
            out.push(65);
            out.push(68);
            out.push(79);
            out.push(84);
            out.push(45);
            push_decimal(*id, &mut out);
            proof {
                assert(out@ =~= spec_sm_bytes(*sm));
            }
        },
        StateMachine::Kusama(id) => {
            out.push(75);
            out.push(85);
            out.push(83);
            out.push(65);
            out.push(77);
            out.push(65);
            out.push(45);
            push_decimal(*id, &mut out);
            proof {
                assert(out@ =~= spec_sm_bytes(*sm));
            }
        },
        StateMachine::Substrate(id) => {
            out.push(id[0]);
            out.push(id[1]);
            out.push(id[2]);
            out.push(id[3]);
            proof {
                assert(out@ =~= spec_sm_bytes(*sm));
            }
        },
    }
    out
}

/// A chain identifier and height as the EVM handler's structures carry them:
/// the hub's para id and the hub height the proof is anchored at.
#[derive(Clone, Copy, Debug, PartialEq, Eq, Structural)]
pub struct EvmStateMachineHeight {
    pub state_machine_id: u32,
    pub height: u64,
}

/// A post request in EVM wire form: chain tags rendered to byte names.
#[derive(Clone, Debug)]
pub struct EvmPostRequest {
    pub source: Vec<u8>,
    pub dest: Vec<u8>,
    pub nonce: u64,
    pub from: Vec<u8>,
    pub to: Vec<u8>,
    pub timeout_timestamp: u64,
    pub body: Vec<u8>,
    pub gaslimit: u64,
}

/// Mathematical content of an [`EvmPostRequest`].
pub struct EvmPostRequestV {
    pub source: Seq<u8>,
    pub dest: Seq<u8>,
    pub nonce: u64,
    pub from: Seq<u8>,
    pub to: Seq<u8>,
    pub timeout_timestamp: u64,
    pub body: Seq<u8>,
    pub gaslimit: u64,
}

impl View for EvmPostRequest {
    type V = EvmPostRequestV;

    open spec fn view(&self) -> EvmPostRequestV {
        EvmPostRequestV {
            source: self.source@,
            dest: self.dest@,
            nonce: self.nonce,
            from: self.from@,
            to: self.to@,
            timeout_timestamp: self.timeout_timestamp,
            body: self.body@,
            gaslimit: self.gaslimit,
        }
    }
}

impl DeepView for EvmPostRequest {
    type V = EvmPostRequestV;

    open spec fn deep_view(&self) -> EvmPostRequestV {
        self@
    }
}

/// A post response in EVM wire form.
#[derive(Clone, Debug)]
pub struct EvmPostResponse {
    pub request: EvmPostRequest,
    pub response: Vec<u8>,
    pub timeout_timestamp: u64,
}

/// Mathematical content of an [`EvmPostResponse`].
pub struct EvmPostResponseV {
    pub request: EvmPostRequestV,
    pub response: Seq<u8>,
    pub timeout_timestamp: u64,
}

impl View for EvmPostResponse {
    type V = EvmPostResponseV;

    open spec fn view(&self) -> EvmPostResponseV {
        EvmPostResponseV {
            request: self.request@,
            response: self.response@,
            timeout_timestamp: self.timeout_timestamp,
        }
    }
}

impl DeepView for EvmPostResponse {
    type V = EvmPostResponseV;

    open spec fn deep_view(&self) -> EvmPostResponseV {
        self@
    }
}

/// A get request in EVM wire form.
#[derive(Clone, Debug)]
pub struct EvmGetRequest {
    pub source: Vec<u8>,
    pub dest: Vec<u8>,
    pub nonce: u64,
    pub from: Vec<u8>,
    pub keys: Vec<Vec<u8>>,
    pub timeout_timestamp: u64,
    pub gaslimit: u64,
    pub height: u64,
}

/// Mathematical content of an [`EvmGetRequest`].
pub struct EvmGetRequestV {
    pub source: Seq<u8>,
    pub dest: Seq<u8>,
    pub nonce: u64,
    pub from: Seq<u8>,
    pub keys: Seq<Seq<u8>>,
    pub timeout_timestamp: u64,
    pub gaslimit: u64,
    pub height: u64,
}

impl View for EvmGetRequest {
    type V = EvmGetRequestV;

    open spec fn view(&self) -> EvmGetRequestV {
        EvmGetRequestV {
            source: self.source@,
            dest: self.dest@,
            nonce: self.nonce,
            from: self.from@,
            keys: self.keys.deep_view(),
            timeout_timestamp: self.timeout_timestamp,
            gaslimit: self.gaslimit,
            height: self.height,
        }
    }
}

impl DeepView for EvmGetRequest {
    type V = EvmGetRequestV;

    open spec fn deep_view(&self) -> EvmGetRequestV {
        self@
    }
}

/// One proven post-request leaf: the request, its leaf index, and its
/// k-index within its peak.
#[derive(Clone, Debug)]
pub struct PostRequestLeaf {
    pub request: EvmPostRequest,
    pub index: u64,
    pub k_index: u64,
}

/// Mathematical content of a [`PostRequestLeaf`].
pub struct PostRequestLeafV {
    pub request: EvmPostRequestV,
    pub index: u64,
    pub k_index: u64,
}

impl View for PostRequestLeaf {
    type V = PostRequestLeafV;

    open spec fn view(&self) -> PostRequestLeafV {
        PostRequestLeafV { request: self.request@, index: self.index, k_index: self.k_index }
    }
}

impl DeepView for PostRequestLeaf {
    type V = PostRequestLeafV;

    open spec fn deep_view(&self) -> PostRequestLeafV {
        self@
    }
}

/// One proven post-response leaf.
#[derive(Clone, Debug)]
pub struct PostResponseLeaf {
    pub response: EvmPostResponse,
    pub index: u64,
    pub k_index: u64,
}

/// Mathematical content of a [`PostResponseLeaf`].
pub struct PostResponseLeafV {
    pub response: EvmPostResponseV,
    pub index: u64,
    pub k_index: u64,
}

impl View for PostResponseLeaf {
    type V = PostResponseLeafV;

    open spec fn view(&self) -> PostResponseLeafV {
        PostResponseLeafV { response: self.response@, index: self.index, k_index: self.k_index }
    }
}

impl DeepView for PostResponseLeaf {
    type V = PostResponseLeafV;

    open spec fn deep_view(&self) -> PostResponseLeafV {
        self@
    }
}

/// The membership proof in EVM wire form: the anchoring height, the sibling
/// hashes, and the leaf count of the mountain range.
#[derive(Clone, Debug)]
pub struct EvmProof {
    pub height: EvmStateMachineHeight,
    pub multiproof: Vec<Vec<u8>>,
    pub leaf_count: u64,
}

/// Mathematical content of an [`EvmProof`].
pub struct EvmProofV {
    pub height: EvmStateMachineHeight,
    pub multiproof: Seq<Seq<u8>>,
    pub leaf_count: u64,
}

impl View for EvmProof {
    type V = EvmProofV;

    open spec fn view(&self) -> EvmProofV {
        EvmProofV {
            height: self.height,
            multiproof: self.multiproof.deep_view(),
            leaf_count: self.leaf_count,
        }
    }
}

/// The handler call that submits a batch of post requests.
#[derive(Clone, Debug)]
pub struct PostRequestMessage {
    pub proof_data: EvmProof,
    pub requests: Vec<PostRequestLeaf>,
}

/// The handler call that submits a batch of post responses.
#[derive(Clone, Debug)]
pub struct PostResponseMessage {
    pub proof_data: EvmProof,
    pub responses: Vec<PostResponseLeaf>,
}

/// The handler call that answers get requests by storage proof.
#[derive(Clone, Debug)]
pub struct GetResponseMessage {
    pub state_proof: Vec<Vec<u8>>,
    pub height: EvmStateMachineHeight,
    pub requests: Vec<EvmGetRequest>,
}

/// The handler call that times out post requests.
#[derive(Clone, Debug)]
pub struct PostRequestTimeoutMessage {
    pub timeouts: Vec<EvmPostRequest>,
    pub height: EvmStateMachineHeight,
    pub state_proof: Vec<Vec<u8>>,
}

/// The handler call that times out post responses.
#[derive(Clone, Debug)]
pub struct PostResponseTimeoutMessage {
    pub timeouts: Vec<EvmPostResponse>,
    pub height: EvmStateMachineHeight,
    pub state_proof: Vec<Vec<u8>>,
}

/// The handler call that times out get requests.
#[derive(Clone, Debug)]
pub struct GetTimeoutMessage {
    pub timeouts: Vec<EvmGetRequest>,
}

/// Any call the relayer can hand to the EVM handler contract.
#[derive(Clone, Debug)]
pub enum HandlerCall {
    Consensus { consensus_proof: Vec<u8> },
    PostRequests(PostRequestMessage),
    PostResponses(PostResponseMessage),
    GetResponses(GetResponseMessage),
    PostRequestTimeouts(PostRequestTimeoutMessage),
    PostResponseTimeouts(PostResponseTimeoutMessage),
    GetRequestTimeouts(GetTimeoutMessage),
}

/// Why the encoder rejected a message.
#[derive(Clone, Copy, Debug, PartialEq, Eq, Structural)]
pub enum EncodingError {
    /// The inner membership or storage proof did not decode.
    UndecodableProof,
    /// The proof height's chain tag is not a Polkadot or Kusama parachain.
    UnexpectedStateMachine,
    /// A leaf's position and leaf index disagree, or the index is out of
    /// range for the proof's leaf count.
    InvalidLeafPositions,
    /// No leaves were left after filtering.
    EmptyLeaves,
    /// A datagram carried a request that is not a get request.
    ExpectedGetRequest,
}

/// The wire form of a post request: chain tags rendered, other fields moved.
pub open spec fn spec_evm_post_request(p: PostRequest) -> EvmPostRequestV {
    EvmPostRequestV {
        source: spec_sm_bytes(p.source),
        dest: spec_sm_bytes(p.dest),
        nonce: p.nonce,
        from: p.from@,
        to: p.to@,
        timeout_timestamp: p.timeout_timestamp,
        body: p.body@,
        gaslimit: p.gas_limit,
    }
}

/// Renders a post request into wire form.
pub fn evm_post_request(p: PostRequest) -> (r: EvmPostRequest)
    ensures
        r@ == spec_evm_post_request(p),
{
    EvmPostRequest {
        source: state_machine_bytes(&p.source),
        dest: state_machine_bytes(&p.dest),
        nonce: p.nonce,
        from: p.from,
        to: p.to,
        timeout_timestamp: p.timeout_timestamp,
        body: p.body,
        gaslimit: p.gas_limit,
    }
}

/// The wire form of a post response.
pub open spec fn spec_evm_post_response(p: PostResponse) -> EvmPostResponseV {
    EvmPostResponseV {
        request: spec_evm_post_request(p.post),
        response: p.response@,
        timeout_timestamp: p.timeout_timestamp,
    }
}

/// Renders a post response into wire form.
pub fn evm_post_response(p: PostResponse) -> (r: EvmPostResponse)
    ensures
        r@ == spec_evm_post_response(p),
{
    EvmPostResponse {
        request: evm_post_request(p.post),
        response: p.response,
        timeout_timestamp: p.timeout_timestamp,
    }
}

/// The wire form of a get request.
pub open spec fn spec_evm_get_request(g: GetRequest) -> EvmGetRequestV {
    EvmGetRequestV {
        source: spec_sm_bytes(g.source),
        dest: spec_sm_bytes(g.dest),
        nonce: g.nonce,
        from: g.from@,
        keys: g.keys.deep_view(),
        timeout_timestamp: g.timeout_timestamp,
        gaslimit: g.gas_limit,
        height: g.height,
    }
}

/// Renders a get request into wire form.
pub fn evm_get_request(g: GetRequest) -> (r: EvmGetRequest)
    ensures
        r@ == spec_evm_get_request(g),
{
    EvmGetRequest {
        source: state_machine_bytes(&g.source),
        dest: state_machine_bytes(&g.dest),
        nonce: g.nonce,
        from: g.from,
        keys: g.keys,
        timeout_timestamp: g.timeout_timestamp,
        gaslimit: g.gas_limit,
        height: g.height,
    }
}

/// Post-request leaves in ascending order of leaf index.
pub open spec fn req_leaves_sorted(s: Seq<PostRequestLeafV>) -> bool {
    forall|i: int, j: int| 0 <= i < j < s.len() ==> s[i].index <= s[j].index
}

/// Post-response leaves in ascending order of leaf index.
pub open spec fn resp_leaves_sorted(s: Seq<PostResponseLeafV>) -> bool {
    forall|i: int, j: int| 0 <= i < j < s.len() ==> s[i].index <= s[j].index
}

/// Sorts post-request leaves ascending by leaf index, keeping exactly the
/// same leaves.
pub fn sort_request_leaves(v: Vec<PostRequestLeaf>) -> (r: Vec<PostRequestLeaf>)
    ensures
        r.deep_view().to_multiset() == v.deep_view().to_multiset(),
        req_leaves_sorted(r.deep_view()),
        r.deep_view().len() == v.deep_view().len(),
{
    let ghost total = v.deep_view().to_multiset();
    let ghost n = v.deep_view().len();
    let mut rest = v;
    let mut out: Vec<PostRequestLeaf> = Vec::new();
    while rest.len() > 0
        invariant
            out.deep_view().to_multiset().add(rest.deep_view().to_multiset()) == total,
            out.deep_view().len() + rest.deep_view().len() == n,
            req_leaves_sorted(out.deep_view()),
            forall|i: int, j: int|
                0 <= i < out.deep_view().len() && 0 <= j < rest.deep_view().len()
                    ==> out.deep_view()[i].index <= rest.deep_view()[j].index,
        decreases rest.len(),
    {
        let mut m: usize = 0;
        let mut k: usize = 1;
        while k < rest.len()
            invariant
                m < k <= rest@.len() || (k <= rest@.len() && m == 0),
                m < rest@.len(),
                rest@.len() > 0,
                forall|t: int| 0 <= t < k ==> rest@[m as int].index <= (#[trigger] rest@[t]).index,
            decreases rest@.len() - k,
        {
            if rest[k].index < rest[m].index {
                m = k;
            }
            k = k + 1;
        }
        let ghost rest0 = rest.deep_view();
        let ghost out0 = out.deep_view();
        let x = rest.remove(m);
        let ghost xv = x.deep_view();
        proof {
            assert(xv == rest0[m as int]);
            assert(rest.deep_view() =~~= rest0.remove(m as int));
            assert(rest0.contains(xv));
            assert(rest0.to_multiset().count(xv) > 0);
        }
        out.push(x);
        proof {
            assert(out.deep_view() =~~= out0.push(xv));
            assert(out0.push(xv).to_multiset() =~= out0.to_multiset().insert(xv));
            assert(rest0.remove(m as int).to_multiset() =~= rest0.to_multiset().remove(xv));
            assert(out.deep_view().to_multiset() == out0.to_multiset().insert(xv));
            assert(rest.deep_view().to_multiset() == rest0.to_multiset().remove(xv));
            assert(out.deep_view().to_multiset().add(rest.deep_view().to_multiset()) =~= out0.to_multiset().add(
                rest0.to_multiset(),
            ));
        }
    }
    out
}

/// Sorts post-response leaves ascending by leaf index, keeping exactly the
/// same leaves.
pub fn sort_response_leaves(v: Vec<PostResponseLeaf>) -> (r: Vec<PostResponseLeaf>)
    ensures
        r.deep_view().to_multiset() == v.deep_view().to_multiset(),
        resp_leaves_sorted(r.deep_view()),
        r.deep_view().len() == v.deep_view().len(),
{
    let ghost total = v.deep_view().to_multiset();
    let ghost n = v.deep_view().len();
    let mut rest = v;
    let mut out: Vec<PostResponseLeaf> = Vec::new();
    while rest.len() > 0
        invariant
            out.deep_view().to_multiset().add(rest.deep_view().to_multiset()) == total,
            out.deep_view().len() + rest.deep_view().len() == n,
            resp_leaves_sorted(out.deep_view()),
            forall|i: int, j: int|
                0 <= i < out.deep_view().len() && 0 <= j < rest.deep_view().len()
                    ==> out.deep_view()[i].index <= rest.deep_view()[j].index,
        decreases rest.len(),
    {
        let mut m: usize = 0;
        let mut k: usize = 1;
        while k < rest.len()
            invariant
                m < k <= rest@.len() || (k <= rest@.len() && m == 0),
                m < rest@.len(),
                rest@.len() > 0,
                forall|t: int| 0 <= t < k ==> rest@[m as int].index <= (#[trigger] rest@[t]).index,
            decreases rest@.len() - k,
        {
            if rest[k].index < rest[m].index {
                m = k;
            }
            k = k + 1;
        }
        let ghost rest0 = rest.deep_view();
        let ghost out0 = out.deep_view();
        let x = rest.remove(m);
        let ghost xv = x.deep_view();
        proof {
            assert(xv == rest0[m as int]);
            assert(rest.deep_view() =~~= rest0.remove(m as int));
            assert(rest0.contains(xv));
            assert(rest0.to_multiset().count(xv) > 0);
        }
        out.push(x);
        proof {
            assert(out.deep_view() =~~= out0.push(xv));
            assert(out0.push(xv).to_multiset() =~= out0.to_multiset().insert(xv));
            assert(rest0.remove(m as int).to_multiset() =~= rest0.to_multiset().remove(xv));
            assert(out.deep_view().to_multiset() == out0.to_multiset().insert(xv));
            assert(rest.deep_view().to_multiset() == rest0.to_multiset().remove(xv));
            assert(out.deep_view().to_multiset().add(rest.deep_view().to_multiset()) =~= out0.to_multiset().add(
                rest0.to_multiset(),
            ));
        }
    }
    out
}

/// Leaves sorted by leaf index whose indices are pairwise distinct are
/// strictly ascending: the ordering the destination's verifier requires of
/// an encoded post-request batch.
pub proof fn lemma_request_leaves_strictly_ascending(s: Seq<PostRequestLeafV>)
    requires
        req_leaves_sorted(s),
        forall|i: int, j: int|
            0 <= i < j < s.len() ==> (#[trigger] s[i]).index != (#[trigger] s[j]).index,
    ensures
        forall|i: int, j: int| 0 <= i < j < s.len() ==> s[i].index < s[j].index,
{
}

/// The post-response analogue of
/// [`lemma_request_leaves_strictly_ascending`].
pub proof fn lemma_response_leaves_strictly_ascending(s: Seq<PostResponseLeafV>)
    requires
        resp_leaves_sorted(s),
        forall|i: int, j: int|
            0 <= i < j < s.len() ==> (#[trigger] s[i]).index != (#[trigger] s[j]).index,
    ensures
        forall|i: int, j: int| 0 <= i < j < s.len() ==> s[i].index < s[j].index,
{
}

/// Every (position, leaf index) pair of the proof agrees with itself: the
/// leaf index lies below the leaf count and the position is the post-order
/// position of that leaf.
pub open spec fn pairs_valid(mp: crate::scale::MmrProofView) -> bool {
    forall|k: int|
        0 <= k < mp.pairs.len() ==> {
            let p = #[trigger] mp.pairs[k];
            &&& p.1 < mp.leaf_count
            &&& p.0 == crate::mmr::spec_leaf_pos(p.1 as nat)
        }
}

/// The leaf built from the `k`-th request and the `k`-th proof pair.
pub open spec fn spec_request_leaf(
    req: PostRequest,
    pair: (u64, u64),
    leaf_count: u64,
) -> PostRequestLeafV {
    PostRequestLeafV {
        request: spec_evm_post_request(req),
        index: pair.1,
        k_index: crate::mmr::spec_k_index(pair.1 as nat, leaf_count as nat) as u64,
    }
}

/// The leaves of a post-request message before sorting: the requests zipped
/// with the proof pairs, the shorter list deciding the length.
pub open spec fn spec_request_leaves(
    reqs: Seq<PostRequest>,
    mp: crate::scale::MmrProofView,
) -> Seq<PostRequestLeafV> {
    let n = if reqs.len() <= mp.pairs.len() {
        reqs.len()
    } else {
        mp.pairs.len()
    };
    Seq::new(n, |k: int| spec_request_leaf(reqs[k], mp.pairs[k], mp.leaf_count))
}

/// Encodes a batch of post requests with their membership proof into the
/// destination's post-request call: the proof is decoded, each leaf's
/// k-index is derived from its leaf index, and the leaves are sorted
/// ascending by leaf index.
pub fn encode_request_message(msg: crate::messages::RequestMessage) -> (r: Result<
    PostRequestMessage,
    EncodingError,
>)
    ensures
        match r {
            Ok(m) => {
                &&& crate::scale::spec_decode_mmr_proof(msg.membership.bytes@) is Some
                &&& ({
                    let mp = crate::scale::spec_decode_mmr_proof(msg.membership.bytes@).unwrap();
                    &&& crate::ids::spec_para_id(msg.membership.height.id.state_id) is Some
                    &&& m.proof_data.height.state_machine_id == crate::ids::spec_para_id(
                        msg.membership.height.id.state_id,
                    ).unwrap()
                    &&& m.proof_data.height.height == msg.membership.height.height
                    &&& m.proof_data.leaf_count == mp.leaf_count
                    &&& m.proof_data@.multiproof == mp.hashes
                    &&& pairs_valid(mp)
                    &&& m.requests.deep_view().len() == spec_request_leaves(
                        msg.requests@,
                        mp,
                    ).len()
                    &&& req_leaves_sorted(m.requests.deep_view())
                    &&& m.requests.deep_view().to_multiset() == spec_request_leaves(
                        msg.requests@,
                        mp,
                    ).to_multiset()
                })
            },
            Err(e) => {
                ||| (e == EncodingError::UndecodableProof && crate::scale::spec_decode_mmr_proof(
                    msg.membership.bytes@,
                ) is None)
                ||| (e == EncodingError::UnexpectedStateMachine
                    && crate::scale::spec_decode_mmr_proof(msg.membership.bytes@) is Some
                    && crate::ids::spec_para_id(msg.membership.height.id.state_id) is None)
                ||| (e == EncodingError::InvalidLeafPositions
                    && crate::scale::spec_decode_mmr_proof(msg.membership.bytes@) is Some
                    && crate::ids::spec_para_id(msg.membership.height.id.state_id) is Some
                    && !pairs_valid(
                    crate::scale::spec_decode_mmr_proof(msg.membership.bytes@).unwrap(),
                ))
            },
        },
{
    let crate::messages::RequestMessage { requests, membership } = msg;
    let decoded = match crate::scale::decode_mmr_proof(&membership.bytes) {
        Some(d) => d,
        None => {
            return Err(EncodingError::UndecodableProof);
        },
    };
    let para = match membership.height.id.state_id.para_id() {
        Some(p) => p,
        None => {
            return Err(EncodingError::UnexpectedStateMachine);
        },
    };
    let ghost mp = decoded@;
    let leaf_count = decoded.leaf_count;
    let mut k: usize = 0;
    while k < decoded.leaf_positions_and_indices.len()
        invariant
            decoded@ == mp,
            crate::scale::spec_decode_mmr_proof(msg.membership.bytes@) == Some(mp),
            crate::ids::spec_para_id(msg.membership.height.id.state_id) is Some,
            leaf_count == mp.leaf_count,
            k <= mp.pairs.len(),
            forall|t: int|
                0 <= t < k ==> {
                    let p = #[trigger] mp.pairs[t];
                    &&& p.1 < mp.leaf_count
                    &&& p.0 == crate::mmr::spec_leaf_pos(p.1 as nat)
                },
        decreases mp.pairs.len() - k,
    {
        let (pos, idx) = decoded.leaf_positions_and_indices[k];
        proof {
            assert((pos, idx) == mp.pairs[k as int]);
        }
        if !(idx < leaf_count) {
            proof {
                assert(mp.pairs[k as int].1 >= mp.leaf_count);
                assert(!pairs_valid(mp));
            }
            return Err(EncodingError::InvalidLeafPositions);
        }
        match crate::mmr::leaf_index_to_pos(idx) {
            Some(p) => {
                if p != pos {
                    proof {
                        assert(mp.pairs[k as int].0 != crate::mmr::spec_leaf_pos(
                            mp.pairs[k as int].1 as nat,
                        ));
                        assert(!pairs_valid(mp));
                    }
                    return Err(EncodingError::InvalidLeafPositions);
                }
            },
            None => {
                proof {
                    assert(mp.pairs[k as int].0 != crate::mmr::spec_leaf_pos(
                        mp.pairs[k as int].1 as nat,
                    ));
                    assert(!pairs_valid(mp));
                }
                return Err(EncodingError::InvalidLeafPositions);
            },
        }
        k = k + 1;
    }
    let ghost reqs0 = requests@;
    let mut reqs = requests;
    let count = if reqs.len() <= decoded.leaf_positions_and_indices.len() {
        reqs.len()
    } else {
        decoded.leaf_positions_and_indices.len()
    };
    let mut leaves: Vec<PostRequestLeaf> = Vec::new();
    let mut i: usize = 0;
    while i < count
        invariant
            decoded@ == mp,
            leaf_count == mp.leaf_count,
            pairs_valid(mp),
            count == spec_request_leaves(reqs0, mp).len(),
            count <= mp.pairs.len(),
            i <= count,
            reqs@ == reqs0.skip(i as int),
            leaves.deep_view() == spec_request_leaves(reqs0, mp).take(i as int),
        decreases count - i,
    {
        let req = reqs.remove(0);
        proof {
            assert(req == reqs0[i as int]);
            assert(reqs@ =~= reqs0.skip(i + 1));
        }
        let (_pos, idx) = decoded.leaf_positions_and_indices[i];
        proof {
            assert((_pos, idx) == mp.pairs[i as int]);
        }
        let ki = crate::mmr::k_index_for_leaf(idx, leaf_count);
        let leaf = PostRequestLeaf { request: evm_post_request(req), index: idx, k_index: ki };
        proof {
            assert(leaf@.request == spec_evm_post_request(reqs0[i as int]));
            assert(leaf@ == spec_request_leaf(reqs0[i as int], mp.pairs[i as int], mp.leaf_count));
        }
        let ghost leaves0 = leaves.deep_view();
        let ghost leafv = leaf@;
        leaves.push(leaf);
        i = i + 1;
        proof {
            assert(leaves.deep_view() =~~= leaves0.push(leafv));
            assert(leaves0.push(leafv) =~= spec_request_leaves(reqs0, mp).take(i as int));
        }
    }
    proof {
        assert(spec_request_leaves(reqs0, mp).take(count as int) =~= spec_request_leaves(
            reqs0,
            mp,
        ));
    }
    let sorted = sort_request_leaves(leaves);
    let proof_data = EvmProof {
        height: EvmStateMachineHeight { state_machine_id: para, height: membership.height.height },
        multiproof: decoded.items,
        leaf_count,
    };
    Ok(PostRequestMessage { proof_data, requests: sorted })
}

/// The leaf built from one post response and its proof pair.
pub open spec fn spec_response_leaf(
    resp: PostResponse,
    pair: (u64, u64),
    leaf_count: u64,
) -> PostResponseLeafV {
    PostResponseLeafV {
        response: spec_evm_post_response(resp),
        index: pair.1,
        k_index: crate::mmr::spec_k_index(pair.1 as nat, leaf_count as nat) as u64,
    }
}

/// The leaves of a post-response message before sorting: responses zipped
/// with their proof pairs, get responses dropped with their pairs. The two
/// sequences must have equal length.
pub open spec fn spec_response_leaves(
    resps: Seq<crate::messages::Response>,
    pairs: Seq<(u64, u64)>,
    leaf_count: u64,
) -> Seq<PostResponseLeafV>
    decreases resps.len(),
{
    if resps.len() == 0 || pairs.len() == 0 {
        Seq::empty()
    } else {
        let rest = spec_response_leaves(resps.drop_last(), pairs.drop_last(), leaf_count);
        match resps.last() {
            crate::messages::Response::Post(pr) => rest + seq![
                spec_response_leaf(pr, pairs.last(), leaf_count),
            ],
            crate::messages::Response::Get(_) => rest,
        }
    }
}

/// Encodes a batch of post responses with their membership proof into the
/// destination's post-response call. Responses are zipped with the proof
/// pairs before get responses are dropped, so each post response keeps its
/// own pair; the surviving leaves are sorted ascending by leaf index.
pub fn encode_response_batch(
    responses: Vec<crate::messages::Response>,
    membership: crate::messages::ProofBundle,
) -> (r: Result<PostResponseMessage, EncodingError>)
    ensures
        match r {
            Ok(m) => {
                &&& crate::scale::spec_decode_mmr_proof(membership.bytes@) is Some
                &&& ({
                    let mp = crate::scale::spec_decode_mmr_proof(membership.bytes@).unwrap();
                    let n = if responses@.len() <= mp.pairs.len() {
                        responses@.len() as int
                    } else {
                        mp.pairs.len() as int
                    };
                    let leaves = spec_response_leaves(
                        responses@.take(n),
                        mp.pairs.take(n),
                        mp.leaf_count,
                    );
                    &&& crate::ids::spec_para_id(membership.height.id.state_id) is Some
                    &&& m.proof_data.height.state_machine_id == crate::ids::spec_para_id(
                        membership.height.id.state_id,
                    ).unwrap()
                    &&& m.proof_data.height.height == membership.height.height
                    &&& m.proof_data.leaf_count == mp.leaf_count
                    &&& m.proof_data@.multiproof == mp.hashes
                    &&& pairs_valid(mp)
                    &&& leaves.len() > 0
                    &&& m.responses.deep_view().len() == leaves.len()
                    &&& resp_leaves_sorted(m.responses.deep_view())
                    &&& m.responses.deep_view().to_multiset() == leaves.to_multiset()
                })
            },
            Err(e) => {
                ||| (e == EncodingError::UndecodableProof && crate::scale::spec_decode_mmr_proof(
                    membership.bytes@,
                ) is None)
                ||| (e == EncodingError::UnexpectedStateMachine
                    && crate::scale::spec_decode_mmr_proof(membership.bytes@) is Some
                    && crate::ids::spec_para_id(membership.height.id.state_id) is None)
                ||| (e == EncodingError::InvalidLeafPositions
                    && crate::scale::spec_decode_mmr_proof(membership.bytes@) is Some
                    && crate::ids::spec_para_id(membership.height.id.state_id) is Some
                    && !pairs_valid(
                    crate::scale::spec_decode_mmr_proof(membership.bytes@).unwrap(),
                ))
                ||| (e == EncodingError::EmptyLeaves
                    && crate::scale::spec_decode_mmr_proof(membership.bytes@) is Some
                    && crate::ids::spec_para_id(membership.height.id.state_id) is Some
                    && pairs_valid(crate::scale::spec_decode_mmr_proof(membership.bytes@).unwrap())
                    && ({
                    let mp = crate::scale::spec_decode_mmr_proof(membership.bytes@).unwrap();
                    let n = if responses@.len() <= mp.pairs.len() {
                        responses@.len() as int
                    } else {
                        mp.pairs.len() as int
                    };
                    spec_response_leaves(
                        responses@.take(n),
                        mp.pairs.take(n),
                        mp.leaf_count,
                    ).len() == 0
                }))
            },
        },
{
    let decoded = match crate::scale::decode_mmr_proof(&membership.bytes) {
        Some(d) => d,
        None => {
            return Err(EncodingError::UndecodableProof);
        },
    };
    let para = match membership.height.id.state_id.para_id() {
        Some(p) => p,
        None => {
            return Err(EncodingError::UnexpectedStateMachine);
        },
    };
    let ghost mp = decoded@;
    let leaf_count = decoded.leaf_count;
    let mut k: usize = 0;
    while k < decoded.leaf_positions_and_indices.len()
        invariant
            decoded@ == mp,
            crate::scale::spec_decode_mmr_proof(membership.bytes@) == Some(mp),
            crate::ids::spec_para_id(membership.height.id.state_id) is Some,
            leaf_count == mp.leaf_count,
            k <= mp.pairs.len(),
            forall|t: int|
                0 <= t < k ==> {
                    let p = #[trigger] mp.pairs[t];
                    &&& p.1 < mp.leaf_count
                    &&& p.0 == crate::mmr::spec_leaf_pos(p.1 as nat)
                },
        decreases mp.pairs.len() - k,
    {
        let (pos, idx) = decoded.leaf_positions_and_indices[k];
        proof {
            assert((pos, idx) == mp.pairs[k as int]);
        }
        if !(idx < leaf_count) {
            proof {
                assert(mp.pairs[k as int].1 >= mp.leaf_count);
                assert(!pairs_valid(mp));
            }
            return Err(EncodingError::InvalidLeafPositions);
        }
        match crate::mmr::leaf_index_to_pos(idx) {
            Some(p) => {
                if p != pos {
                    proof {
                        assert(mp.pairs[k as int].0 != crate::mmr::spec_leaf_pos(
                            mp.pairs[k as int].1 as nat,
                        ));
                        assert(!pairs_valid(mp));
                    }
                    return Err(EncodingError::InvalidLeafPositions);
                }
            },
            None => {
                proof {
                    assert(mp.pairs[k as int].0 != crate::mmr::spec_leaf_pos(
                        mp.pairs[k as int].1 as nat,
                    ));
                    assert(!pairs_valid(mp));
                }
                return Err(EncodingError::InvalidLeafPositions);
            },
        }
        k = k + 1;
    }
    let ghost resps0 = responses@;
    let mut resps = responses;
    let count = if resps.len() <= decoded.leaf_positions_and_indices.len() {
        resps.len()
    } else {
        decoded.leaf_positions_and_indices.len()
    };
    let ghost target = spec_response_leaves(
        resps0.take(count as int),
        mp.pairs.take(count as int),
        mp.leaf_count,
    );
    let mut leaves: Vec<PostResponseLeaf> = Vec::new();
    let mut i: usize = 0;
    while i < count
        invariant
            decoded@ == mp,
            leaf_count == mp.leaf_count,
            pairs_valid(mp),
            count <= mp.pairs.len(),
            count <= resps0.len(),
            i <= count,
            resps@ == resps0.skip(i as int),
            leaves.deep_view() == spec_response_leaves(
                resps0.take(i as int),
                mp.pairs.take(i as int),
                mp.leaf_count,
            ),
        decreases count - i,
    {
        let resp = resps.remove(0);
        proof {
            assert(resp == resps0[i as int]);
            assert(resps@ =~= resps0.skip(i + 1));
            assert(resps0.take(i + 1).drop_last() =~= resps0.take(i as int));
            assert(mp.pairs.take(i + 1).drop_last() =~= mp.pairs.take(i as int));
            assert(resps0.take(i + 1).last() == resps0[i as int]);
            assert(mp.pairs.take(i + 1).last() == mp.pairs[i as int]);
        }
        let (_pos, idx) = decoded.leaf_positions_and_indices[i];
        proof {
            assert((_pos, idx) == mp.pairs[i as int]);
        }
        match resp {
            crate::messages::Response::Post(pr) => {
                let ki = crate::mmr::k_index_for_leaf(idx, leaf_count);
                let leaf = PostResponseLeaf {
                    response: evm_post_response(pr),
                    index: idx,
                    k_index: ki,
                };
                proof {
                    assert(leaf@ == spec_response_leaf(
                        resps0[i as int]->Post_0,
                        mp.pairs[i as int],
                        mp.leaf_count,
                    ));
                }
                let ghost leaves0 = leaves.deep_view();
                let ghost leafv = leaf@;
                leaves.push(leaf);
                proof {
                    assert(leaves.deep_view() =~~= leaves0.push(leafv));
                    assert(leaves0.push(leafv) =~= spec_response_leaves(
                        resps0.take(i + 1),
                        mp.pairs.take(i + 1),
                        mp.leaf_count,
                    ));
                }
            },
            crate::messages::Response::Get(_) => {
            },
        }
        i = i + 1;
    }
    if leaves.len() == 0 {
        proof {
            assert(target.len() == 0);
        }
        return Err(EncodingError::EmptyLeaves);
    }
    let sorted = sort_response_leaves(leaves);
    let proof_data = EvmProof {
        height: EvmStateMachineHeight { state_machine_id: para, height: membership.height.height },
        multiproof: decoded.items,
        leaf_count,
    };
    Ok(PostResponseMessage { proof_data, responses: sorted })
}

/// All requests in the sequence are get requests.
pub open spec fn spec_all_gets(reqs: Seq<crate::messages::Request>) -> bool {
    forall|i: int| 0 <= i < reqs.len() ==> (#[trigger] reqs[i]) is Get
}

/// The wire forms of a sequence of get requests.
pub open spec fn spec_get_wires(reqs: Seq<crate::messages::Request>) -> Seq<EvmGetRequestV> {
    Seq::new(reqs.len(), |i: int| spec_evm_get_request(reqs[i]->Get_0))
}

/// The wire forms of the post requests in a sequence, get requests dropped.
pub open spec fn spec_post_wires(reqs: Seq<crate::messages::Request>) -> Seq<EvmPostRequestV>
    decreases reqs.len(),
{
    if reqs.len() == 0 {
        Seq::empty()
    } else {
        let rest = spec_post_wires(reqs.drop_last());
        match reqs.last() {
            crate::messages::Request::Post(p) => rest + seq![spec_evm_post_request(p)],
            crate::messages::Request::Get(_) => rest,
        }
    }
}

/// The wire forms of the get requests in a sequence, post requests dropped.
pub open spec fn spec_get_wires_filtered(
    reqs: Seq<crate::messages::Request>,
) -> Seq<EvmGetRequestV>
    decreases reqs.len(),
{
    if reqs.len() == 0 {
        Seq::empty()
    } else {
        let rest = spec_get_wires_filtered(reqs.drop_last());
        match reqs.last() {
            crate::messages::Request::Get(g) => rest + seq![spec_evm_get_request(g)],
            crate::messages::Request::Post(_) => rest,
        }
    }
}

/// The wire forms of a sequence of post responses.
pub open spec fn spec_post_response_wires(
    resps: Seq<PostResponse>,
) -> Seq<EvmPostResponseV> {
    Seq::new(resps.len(), |i: int| spec_evm_post_response(resps[i]))
}

/// Converts a batch of requests that must all be get requests into wire
/// form; `Err` exactly when a post request is among them.
fn convert_get_requests(requests: Vec<crate::messages::Request>) -> (r: Result<
    Vec<EvmGetRequest>,
    EncodingError,
>)
    ensures
        match r {
            Ok(v) => spec_all_gets(requests@) && v.deep_view() == spec_get_wires(requests@),
            Err(e) => e == EncodingError::ExpectedGetRequest && !spec_all_gets(requests@),
        },
{
    let ghost reqs0 = requests@;
    let mut rest = requests;
    let total: usize = rest.len();
    let mut out: Vec<EvmGetRequest> = Vec::new();
    let mut i: usize = 0;
    while rest.len() > 0
        invariant
            reqs0 == requests@,
            total == reqs0.len(),
            i + rest@.len() == total,
            rest@ == reqs0.skip(i as int),
            forall|t: int| 0 <= t < i ==> (#[trigger] reqs0[t]) is Get,
            out.deep_view() == spec_get_wires(reqs0.take(i as int)),
        decreases rest.len(),
    {
        let req = rest.remove(0);
        proof {
            assert(req == reqs0[i as int]);
            assert(rest@ =~= reqs0.skip(i + 1));
        }
        match req {
            crate::messages::Request::Get(g) => {
                let ghost out0 = out.deep_view();
                let wire = evm_get_request(g);
                let ghost wv = wire@;
                out.push(wire);
                proof {
                    assert(out.deep_view() =~~= out0.push(wv));
                    assert(out0.push(wv) =~= spec_get_wires(reqs0.take(i + 1)));
                }
            },
            crate::messages::Request::Post(_) => {
                proof {
                    assert(!spec_all_gets(reqs0));
                }
                return Err(EncodingError::ExpectedGetRequest);
            },
        }
        i = i + 1;
    }
    proof {
        assert(reqs0.take(reqs0.len() as int) =~= reqs0);
    }
    Ok(out)
}

/// Converts a batch of requests into wire form, keeping only the post
/// requests.
fn convert_post_requests(requests: Vec<crate::messages::Request>) -> (r: Vec<EvmPostRequest>)
    ensures
        r.deep_view() == spec_post_wires(requests@),
{
    let ghost reqs0 = requests@;
    let mut rest = requests;
    let total: usize = rest.len();
    let mut out: Vec<EvmPostRequest> = Vec::new();
    let mut i: usize = 0;
    while rest.len() > 0
        invariant
            total == reqs0.len(),
            i + rest@.len() == total,
            rest@ == reqs0.skip(i as int),
            out.deep_view() == spec_post_wires(reqs0.take(i as int)),
        decreases rest.len(),
    {
        let req = rest.remove(0);
        proof {
            assert(req == reqs0[i as int]);
            assert(rest@ =~= reqs0.skip(i + 1));
            assert(reqs0.take(i + 1).drop_last() =~= reqs0.take(i as int));
            assert(reqs0.take(i + 1).last() == reqs0[i as int]);
        }
        match req {
            crate::messages::Request::Post(p) => {
                let ghost out0 = out.deep_view();
                let wire = evm_post_request(p);
                let ghost wv = wire@;
                out.push(wire);
                proof {
                    assert(out.deep_view() =~~= out0.push(wv));
                    assert(out0.push(wv) =~= spec_post_wires(reqs0.take(i + 1)));
                }
            },
            crate::messages::Request::Get(_) => {
            },
        }
        i = i + 1;
    }
    proof {
        assert(reqs0.take(reqs0.len() as int) =~= reqs0);
    }
    out
}

/// Converts a batch of requests into wire form, keeping only the get
/// requests.
fn convert_get_requests_filtered(requests: Vec<crate::messages::Request>) -> (r: Vec<
    EvmGetRequest,
>)
    ensures
        r.deep_view() == spec_get_wires_filtered(requests@),
{
    let ghost reqs0 = requests@;
    let mut rest = requests;
    let total: usize = rest.len();
    let mut out: Vec<EvmGetRequest> = Vec::new();
    let mut i: usize = 0;
    while rest.len() > 0
        invariant
            total == reqs0.len(),
            i + rest@.len() == total,
            rest@ == reqs0.skip(i as int),
            out.deep_view() == spec_get_wires_filtered(reqs0.take(i as int)),
        decreases rest.len(),
    {
        let req = rest.remove(0);
        proof {
            assert(req == reqs0[i as int]);
            assert(rest@ =~= reqs0.skip(i + 1));
            assert(reqs0.take(i + 1).drop_last() =~= reqs0.take(i as int));
            assert(reqs0.take(i + 1).last() == reqs0[i as int]);
        }
        match req {
            crate::messages::Request::Get(g) => {
                let ghost out0 = out.deep_view();
                let wire = evm_get_request(g);
                let ghost wv = wire@;
                out.push(wire);
                proof {
                    assert(out.deep_view() =~~= out0.push(wv));
                    assert(out0.push(wv) =~= spec_get_wires_filtered(reqs0.take(i + 1)));
                }
            },
            crate::messages::Request::Post(_) => {
            },
        }
        i = i + 1;
    }
    proof {
        assert(reqs0.take(reqs0.len() as int) =~= reqs0);
    }
    out
}

/// Converts a batch of post responses into wire form.
fn convert_post_responses(responses: Vec<PostResponse>) -> (r: Vec<EvmPostResponse>)
    ensures
        r.deep_view() == spec_post_response_wires(responses@),
{
    let ghost resps0 = responses@;
    let mut rest = responses;
    let total: usize = rest.len();
    let mut out: Vec<EvmPostResponse> = Vec::new();
    let mut i: usize = 0;
    while rest.len() > 0
        invariant
            total == resps0.len(),
            i + rest@.len() == total,
            rest@ == resps0.skip(i as int),
            out.deep_view() == spec_post_response_wires(resps0.take(i as int)),
        decreases rest.len(),
    {
        let resp = rest.remove(0);
        proof {
            assert(resp == resps0[i as int]);
            assert(rest@ =~= resps0.skip(i + 1));
        }
        let ghost out0 = out.deep_view();
        let wire = evm_post_response(resp);
        let ghost wv = wire@;
        out.push(wire);
        proof {
            assert(out.deep_view() =~~= out0.push(wv));
            assert(out0.push(wv) =~= spec_post_response_wires(resps0.take(i + 1)));
        }
        i = i + 1;
    }
    proof {
        assert(resps0.take(resps0.len() as int) =~= resps0);
    }
    out
}

/// Encodes a batch of get requests answered by storage proof into the
/// destination's get-response call.
pub fn encode_get_response(
    requests: Vec<crate::messages::Request>,
    membership: crate::messages::ProofBundle,
) -> (r: Result<GetResponseMessage, EncodingError>)
    ensures
        match r {
            Ok(m) => {
                &&& spec_all_gets(requests@)
                &&& crate::scale::spec_decode_state_proof(membership.bytes@) is Some
                &&& crate::ids::spec_para_id(membership.height.id.state_id) is Some
                &&& m.requests.deep_view() == spec_get_wires(requests@)
                &&& m.state_proof.deep_view() == crate::scale::spec_decode_state_proof(
                    membership.bytes@,
                ).unwrap().nodes
                &&& m.height.state_machine_id == crate::ids::spec_para_id(
                    membership.height.id.state_id,
                ).unwrap()
                &&& m.height.height == membership.height.height
            },
            Err(e) => {
                ||| (e == EncodingError::ExpectedGetRequest && !spec_all_gets(requests@))
                ||| (e == EncodingError::UndecodableProof && spec_all_gets(requests@)
                    && crate::scale::spec_decode_state_proof(membership.bytes@) is None)
                ||| (e == EncodingError::UnexpectedStateMachine && spec_all_gets(requests@)
                    && crate::scale::spec_decode_state_proof(membership.bytes@) is Some
                    && crate::ids::spec_para_id(membership.height.id.state_id) is None)
            },
        },
{
    let wires = match convert_get_requests(requests) {
        Ok(w) => w,
        Err(e) => {
            return Err(e);
        },
    };
    let sp = match crate::scale::decode_state_proof(&membership.bytes) {
        Some(s) => s,
        None => {
            return Err(EncodingError::UndecodableProof);
        },
    };
    let para = match membership.height.id.state_id.para_id() {
        Some(p) => p,
        None => {
            return Err(EncodingError::UnexpectedStateMachine);
        },
    };
    Ok(GetResponseMessage {
        state_proof: sp.storage_proof,
        height: EvmStateMachineHeight { state_machine_id: para, height: membership.height.height },
        requests: wires,
    })
}

/// Encodes a batch of timed-out post requests into the destination's
/// post-request timeout call; get requests among them are dropped.
pub fn encode_post_timeouts(
    requests: Vec<crate::messages::Request>,
    timeout_proof: crate::messages::ProofBundle,
) -> (r: Result<PostRequestTimeoutMessage, EncodingError>)
    ensures
        match r {
            Ok(m) => {
                &&& crate::scale::spec_decode_state_proof(timeout_proof.bytes@) is Some
                &&& crate::ids::spec_para_id(timeout_proof.height.id.state_id) is Some
                &&& m.timeouts.deep_view() == spec_post_wires(requests@)
                &&& m.state_proof.deep_view() == crate::scale::spec_decode_state_proof(
                    timeout_proof.bytes@,
                ).unwrap().nodes
                &&& m.height.state_machine_id == crate::ids::spec_para_id(
                    timeout_proof.height.id.state_id,
                ).unwrap()
                &&& m.height.height == timeout_proof.height.height
            },
            Err(e) => {
                ||| (e == EncodingError::UndecodableProof
                    && crate::scale::spec_decode_state_proof(timeout_proof.bytes@) is None)
                ||| (e == EncodingError::UnexpectedStateMachine
                    && crate::scale::spec_decode_state_proof(timeout_proof.bytes@) is Some
                    && crate::ids::spec_para_id(timeout_proof.height.id.state_id) is None)
            },
        },
{
    let wires = convert_post_requests(requests);
    let sp = match crate::scale::decode_state_proof(&timeout_proof.bytes) {
        Some(s) => s,
        None => {
            return Err(EncodingError::UndecodableProof);
        },
    };
    let para = match timeout_proof.height.id.state_id.para_id() {
        Some(p) => p,
        None => {
            return Err(EncodingError::UnexpectedStateMachine);
        },
    };
    Ok(PostRequestTimeoutMessage {
        timeouts: wires,
        height: EvmStateMachineHeight {
            state_machine_id: para,
            height: timeout_proof.height.height,
        },
        state_proof: sp.storage_proof,
    })
}

/// Encodes a batch of timed-out post responses into the destination's
/// post-response timeout call.
pub fn encode_post_response_timeouts(
    responses: Vec<PostResponse>,
    timeout_proof: crate::messages::ProofBundle,
) -> (r: Result<PostResponseTimeoutMessage, EncodingError>)
    ensures
        match r {
            Ok(m) => {
                &&& crate::scale::spec_decode_state_proof(timeout_proof.bytes@) is Some
                &&& crate::ids::spec_para_id(timeout_proof.height.id.state_id) is Some
                &&& m.timeouts.deep_view() == spec_post_response_wires(responses@)
                &&& m.state_proof.deep_view() == crate::scale::spec_decode_state_proof(
                    timeout_proof.bytes@,
                ).unwrap().nodes
                &&& m.height.state_machine_id == crate::ids::spec_para_id(
                    timeout_proof.height.id.state_id,
                ).unwrap()
                &&& m.height.height == timeout_proof.height.height
            },
            Err(e) => {
                ||| (e == EncodingError::UndecodableProof
                    && crate::scale::spec_decode_state_proof(timeout_proof.bytes@) is None)
                ||| (e == EncodingError::UnexpectedStateMachine
                    && crate::scale::spec_decode_state_proof(timeout_proof.bytes@) is Some
                    && crate::ids::spec_para_id(timeout_proof.height.id.state_id) is None)
            },
        },
{
    let wires = convert_post_responses(responses);
    let sp = match crate::scale::decode_state_proof(&timeout_proof.bytes) {
        Some(s) => s,
        None => {
            return Err(EncodingError::UndecodableProof);
        },
    };
    let para = match timeout_proof.height.id.state_id.para_id() {
        Some(p) => p,
        None => {
            return Err(EncodingError::UnexpectedStateMachine);
        },
    };
    Ok(PostResponseTimeoutMessage {
        timeouts: wires,
        height: EvmStateMachineHeight {
            state_machine_id: para,
            height: timeout_proof.height.height,
        },
        state_proof: sp.storage_proof,
    })
}

/// Encodes a batch of timed-out get requests into the destination's
/// get timeout call; post requests among them are dropped. A get timeout
/// carries no proof, so this cannot fail.
pub fn encode_get_timeouts(requests: Vec<crate::messages::Request>) -> (m: GetTimeoutMessage)
    ensures
        m.timeouts.deep_view() == spec_get_wires_filtered(requests@),
{
    GetTimeoutMessage { timeouts: convert_get_requests_filtered(requests) }
}

/// Whether the encoder accepts a message: the success conditions of the
/// per-kind encoding functions, combined.
pub open spec fn spec_message_encodes(msg: crate::messages::Message) -> bool {
    match msg {
        crate::messages::Message::Consensus(_) => true,
        crate::messages::Message::Request(rm) => {
            &&& crate::scale::spec_decode_mmr_proof(rm.membership.bytes@) is Some
            &&& crate::ids::spec_para_id(rm.membership.height.id.state_id) is Some
            &&& pairs_valid(crate::scale::spec_decode_mmr_proof(rm.membership.bytes@).unwrap())
        },
        crate::messages::Message::Response(rm) => match rm.datagram {
            crate::messages::RequestResponse::Response(resps) => {
                &&& crate::scale::spec_decode_mmr_proof(rm.membership.bytes@) is Some
                &&& crate::ids::spec_para_id(rm.membership.height.id.state_id) is Some
                &&& pairs_valid(
                    crate::scale::spec_decode_mmr_proof(rm.membership.bytes@).unwrap(),
                )
                &&& ({
                    let mp = crate::scale::spec_decode_mmr_proof(rm.membership.bytes@).unwrap();
                    let n = if resps@.len() <= mp.pairs.len() {
                        resps@.len() as int
                    } else {
                        mp.pairs.len() as int
                    };
                    spec_response_leaves(resps@.take(n), mp.pairs.take(n), mp.leaf_count).len()
                        > 0
                })
            },
            crate::messages::RequestResponse::Request(reqs) => {
                &&& spec_all_gets(reqs@)
                &&& crate::scale::spec_decode_state_proof(rm.membership.bytes@) is Some
                &&& crate::ids::spec_para_id(rm.membership.height.id.state_id) is Some
            },
        },
        crate::messages::Message::Timeout(tm) => match tm {
            crate::messages::TimeoutMessage::Post { timeout_proof, .. } => {
                &&& crate::scale::spec_decode_state_proof(timeout_proof.bytes@) is Some
                &&& crate::ids::spec_para_id(timeout_proof.height.id.state_id) is Some
            },
            crate::messages::TimeoutMessage::PostResponse { timeout_proof, .. } => {
                &&& crate::scale::spec_decode_state_proof(timeout_proof.bytes@) is Some
                &&& crate::ids::spec_para_id(timeout_proof.height.id.state_id) is Some
            },
            crate::messages::TimeoutMessage::Get { .. } => true,
        },
    }
}

/// Encodes one hub message into the matching destination handler call:
/// succeeds exactly when [`spec_message_encodes`] holds, and returns the
/// call of the kind matching the message's kind.
pub fn encode_message(msg: crate::messages::Message) -> (r: Result<HandlerCall, EncodingError>)
    ensures
        r is Ok <==> spec_message_encodes(msg),
        match r {
            Ok(c) => match msg {
                crate::messages::Message::Consensus(cm) => c matches HandlerCall::Consensus {
                    consensus_proof,
                } && consensus_proof@ == cm.consensus_proof@,
                crate::messages::Message::Request(_) => c is PostRequests,
                crate::messages::Message::Response(rm) => match rm.datagram {
                    crate::messages::RequestResponse::Response(_) => c is PostResponses,
                    crate::messages::RequestResponse::Request(_) => c is GetResponses,
                },
                crate::messages::Message::Timeout(tm) => match tm {
                    crate::messages::TimeoutMessage::Post { .. } => c is PostRequestTimeouts,
                    crate::messages::TimeoutMessage::PostResponse { .. } => c
                        is PostResponseTimeouts,
                    crate::messages::TimeoutMessage::Get { .. } => c is GetRequestTimeouts,
                },
            },
            Err(_) => true,
        },
{
    match msg {
        crate::messages::Message::Consensus(cm) => Ok(
            HandlerCall::Consensus { consensus_proof: cm.consensus_proof },
        ),
        crate::messages::Message::Request(rm) => match encode_request_message(rm) {
            Ok(m) => Ok(HandlerCall::PostRequests(m)),
            Err(e) => Err(e),
        },
        crate::messages::Message::Response(rm) => {
            let crate::messages::ResponseMessage { datagram, membership } = rm;
            match datagram {
                crate::messages::RequestResponse::Response(resps) => {
                    match encode_response_batch(resps, membership) {
                        Ok(m) => Ok(HandlerCall::PostResponses(m)),
                        Err(e) => Err(e),
                    }
                },
                crate::messages::RequestResponse::Request(reqs) => {
                    match encode_get_response(reqs, membership) {
                        Ok(m) => Ok(HandlerCall::GetResponses(m)),
                        Err(e) => Err(e),
                    }
                },
            }
        },
        crate::messages::Message::Timeout(tm) => match tm {
            crate::messages::TimeoutMessage::Post { timeout_proof, requests } => {
                match encode_post_timeouts(requests, timeout_proof) {
                    Ok(m) => Ok(HandlerCall::PostRequestTimeouts(m)),
                    Err(e) => Err(e),
                }
            },
            crate::messages::TimeoutMessage::PostResponse { timeout_proof, responses } => {
                match encode_post_response_timeouts(responses, timeout_proof) {
                    Ok(m) => Ok(HandlerCall::PostResponseTimeouts(m)),
                    Err(e) => Err(e),
                }
            },
            crate::messages::TimeoutMessage::Get { requests } => Ok(
                HandlerCall::GetRequestTimeouts(encode_get_timeouts(requests)),
            ),
        },
    }
}

/// Encodes a batch of messages, skipping those the encoder rejects: a
/// decode failure in one message never poisons the batch. Returns the calls
/// of the accepted messages, in order, and the number skipped.
#[verifier::rlimit(60)]
pub fn encode_batch(msgs: Vec<crate::messages::Message>) -> (r: (Vec<HandlerCall>, usize))
    ensures
        r.0@.len() + r.1 == msgs@.len(),
        r.1 == msgs@.filter(|m: crate::messages::Message| !spec_message_encodes(m)).len(),
{
    broadcast use vstd::seq_lib::group_filter_ensures;

    let ghost msgs0 = msgs@;
    let ghost skip_pred = |m: crate::messages::Message| !spec_message_encodes(m);
    let mut rest = msgs;
    let total: usize = rest.len();
    let mut calls: Vec<HandlerCall> = Vec::new();
    let mut skipped: usize = 0;
    let mut i: usize = 0;
    while rest.len() > 0
        invariant
            total == msgs0.len(),
            i + rest@.len() == total,
            rest@ == msgs0.skip(i as int),
            calls@.len() + skipped == i,
            skipped == msgs0.take(i as int).filter(skip_pred).len(),
            skip_pred == (|m: crate::messages::Message| !spec_message_encodes(m)),
        decreases rest.len(),
    {
        let msg = rest.remove(0);
        proof {
            assert(msg == msgs0[i as int]);
            assert(rest@ =~= msgs0.skip(i + 1));
            assert(msgs0.take(i + 1).drop_last() =~= msgs0.take(i as int));
            assert(msgs0.take(i + 1).last() == msgs0[i as int]);
            reveal(Seq::filter);
        }
        match encode_message(msg) {
            Ok(c) => {
                calls.push(c);
            },
            Err(_) => {
                skipped = skipped + 1;
            },
        }
        i = i + 1;
    }
    proof {
        assert(msgs0.take(msgs0.len() as int) =~= msgs0);
    }
    (calls, skipped)
}

/// A batch of leaves with the same multiset as a batch whose leaf indices
/// are pairwise distinct has pairwise distinct leaf indices itself.
pub proof fn lemma_request_permutation_keeps_distinct_indices(
    s: Seq<PostRequestLeafV>,
    t: Seq<PostRequestLeafV>,
)
    requires
        s.to_multiset() == t.to_multiset(),
        forall|i: int, j: int|
            0 <= i < j < t.len() ==> (#[trigger] t[i]).index != (#[trigger] t[j]).index,
    ensures
        forall|i: int, j: int|
            0 <= i < j < s.len() ==> (#[trigger] s[i]).index != (#[trigger] s[j]).index,
{
    assert(t.no_duplicates());
    t.lemma_multiset_has_no_duplicates();
    s.lemma_multiset_has_no_duplicates_conv();
    assert forall|i: int, j: int|
        0 <= i < j < s.len() implies (#[trigger] s[i]).index != (#[trigger] s[j]).index by {
        if s[i].index == s[j].index {
            assert(s[i] != s[j]);
            assert(s.contains(s[i]));
            assert(s.to_multiset().count(s[i]) > 0);
            assert(t.to_multiset().count(s[i]) > 0);
            assert(t.contains(s[i]));
            assert(s.contains(s[j]));
            assert(s.to_multiset().count(s[j]) > 0);
            assert(t.contains(s[j]));
            let k1 = choose|k: int| 0 <= k < t.len() && t[k] == s[i];
            let k2 = choose|k: int| 0 <= k < t.len() && t[k] == s[j];
            assert(k1 != k2);
            assert(t[k1].index == t[k2].index);
        }
    }
}

/// The post-response analogue of
/// [`lemma_request_permutation_keeps_distinct_indices`].
pub proof fn lemma_response_permutation_keeps_distinct_indices(
    s: Seq<PostResponseLeafV>,
    t: Seq<PostResponseLeafV>,
)
    requires
        s.to_multiset() == t.to_multiset(),
        forall|i: int, j: int|
            0 <= i < j < t.len() ==> (#[trigger] t[i]).index != (#[trigger] t[j]).index,
    ensures
        forall|i: int, j: int|
            0 <= i < j < s.len() ==> (#[trigger] s[i]).index != (#[trigger] s[j]).index,
{
    assert(t.no_duplicates());
    t.lemma_multiset_has_no_duplicates();
    s.lemma_multiset_has_no_duplicates_conv();
    assert forall|i: int, j: int|
        0 <= i < j < s.len() implies (#[trigger] s[i]).index != (#[trigger] s[j]).index by {
        if s[i].index == s[j].index {
            assert(s[i] != s[j]);
            assert(s.contains(s[i]));
            assert(s.to_multiset().count(s[i]) > 0);
            assert(t.to_multiset().count(s[i]) > 0);
            assert(t.contains(s[i]));
            assert(s.contains(s[j]));
            assert(s.to_multiset().count(s[j]) > 0);
            assert(t.contains(s[j]));
            let k1 = choose|k: int| 0 <= k < t.len() && t[k] == s[i];
            let k2 = choose|k: int| 0 <= k < t.len() && t[k] == s[j];
            assert(k1 != k2);
            assert(t[k1].index == t[k2].index);
        }
    }
}

/// Leaf ordering: the leaves of an encoded post-request message — sorted by
/// [`sort_request_leaves`] and drawn, leaf for leaf, from proof pairs with
/// pairwise distinct leaf indices — are strictly ascending by leaf index.
pub proof fn lemma_encoded_request_leaves_strict(
    leaves: Seq<PostRequestLeafV>,
    source: Seq<PostRequestLeafV>,
)
    requires
        req_leaves_sorted(leaves),
        leaves.to_multiset() == source.to_multiset(),
        forall|i: int, j: int|
            0 <= i < j < source.len() ==> (#[trigger] source[i]).index != (
            #[trigger] source[j]).index,
    ensures
        forall|i: int, j: int| 0 <= i < j < leaves.len() ==> leaves[i].index < leaves[j].index,
{
    lemma_request_permutation_keeps_distinct_indices(leaves, source);
    lemma_request_leaves_strictly_ascending(leaves);
}

/// The post-response analogue of [`lemma_encoded_request_leaves_strict`].
pub proof fn lemma_encoded_response_leaves_strict(
    leaves: Seq<PostResponseLeafV>,
    source: Seq<PostResponseLeafV>,
)
    requires
        resp_leaves_sorted(leaves),
        leaves.to_multiset() == source.to_multiset(),
        forall|i: int, j: int|
            0 <= i < j < source.len() ==> (#[trigger] source[i]).index != (
            #[trigger] source[j]).index,
    ensures
        forall|i: int, j: int| 0 <= i < j < leaves.len() ==> leaves[i].index < leaves[j].index,
{
    lemma_response_permutation_keeps_distinct_indices(leaves, source);
    lemma_response_leaves_strictly_ascending(leaves);
}

} // verus!



