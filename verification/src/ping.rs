//! Typed front end of the ping test contract.
//!
//! The ping module is the EVM contract used to exercise a deployed
//! messaging path end to end. Each method builds the call that invokes one
//! contract function: the target address, the four-byte function selector
//! (carried big-endian in a `u32`), and the typed argument. Turning a built
//! call into a transaction is transport work.

use vstd::prelude::*;
use crate::encoder::{EvmGetRequest, EvmPostRequest, EvmPostResponse};

verus! {

/// A 256-bit EVM word, carried as 32 big-endian bytes.
#[derive(Clone, Copy, Debug)]
pub struct EvmWord(pub [u8; 32]);

/// A 20-byte EVM address.
pub type Address = [u8; 20];

/// A message the ping contract dispatches repeatedly.
#[derive(Clone, Debug)]
pub struct PingMessage {
    /// Destination chain, by its byte name.
    pub dest: Vec<u8>,
    /// Destination module address.
    pub module: Address,
    /// Request timeout in seconds.
    pub timeout: u64,
    /// How many pings to dispatch.
    pub count: EvmWord,
    /// Relayer fee per ping.
    pub fee: EvmWord,
}

/// A post request delivered to the contract, with the relayer that
/// delivered it.
#[derive(Clone, Debug)]
pub struct IncomingPostRequest {
    pub request: EvmPostRequest,
    pub relayer: Address,
}

/// A post response delivered to the contract, with the relayer that
/// delivered it.
#[derive(Clone, Debug)]
pub struct IncomingPostResponse {
    pub response: EvmPostResponse,
    pub relayer: Address,
}

/// One storage value of a get response, as the contract receives it.
#[derive(Clone, Debug)]
pub struct StorageValueWire {
    pub key: Vec<u8>,
    pub value: Vec<u8>,
}

/// A get response as the contract receives it.
#[derive(Clone, Debug)]
pub struct EvmGetResponse {
    pub request: EvmGetRequest,
    pub values: Vec<StorageValueWire>,
}

/// A get response delivered to the contract, with the relayer that
/// delivered it.
#[derive(Clone, Debug)]
pub struct IncomingGetResponse {
    pub response: EvmGetResponse,
    pub relayer: Address,
}

/// Arguments of the `dispatch` function taking a get request.
#[derive(Clone, Debug)]
pub struct DispatchCall {
    pub request: EvmGetRequest,
}

/// Arguments of the `dispatch` overload taking a full get request struct.
#[derive(Clone, Debug)]
pub struct DispatchWithRequestCall {
    pub request: EvmGetRequest,
}

/// Arguments of the `dispatchPostResponse` function.
#[derive(Clone, Debug)]
pub struct DispatchPostResponseCall {
    pub response: EvmPostResponse,
}

/// Arguments of the `dispatchToParachain` function.
#[derive(Clone, Debug)]
pub struct DispatchToParachainCall {
    pub para_id: EvmWord,
}

/// Arguments of the `host` view function.
#[derive(Clone, Copy, Debug)]
pub struct HostCall;

/// Arguments of the `onAccept` callback.
#[derive(Clone, Debug)]
pub struct OnAcceptCall {
    pub incoming: IncomingPostRequest,
}

/// Arguments of the `onGetResponse` callback.
#[derive(Clone, Debug)]
pub struct OnGetResponseCall(pub IncomingGetResponse);

/// Arguments of the `onGetTimeout` callback.
#[derive(Clone, Debug)]
pub struct OnGetTimeoutCall(pub EvmGetRequest);

/// Arguments of the `onPostRequestTimeout` callback.
#[derive(Clone, Debug)]
pub struct OnPostRequestTimeoutCall(pub EvmPostRequest);

/// Arguments of the `onPostResponse` callback.
#[derive(Clone, Debug)]
pub struct OnPostResponseCall(pub IncomingPostResponse);

/// Arguments of the `onPostResponseTimeout` callback.
#[derive(Clone, Debug)]
pub struct OnPostResponseTimeoutCall(pub EvmPostResponse);

/// Arguments of the `ping` function.
#[derive(Clone, Debug)]
pub struct PingCall {
    pub ping_message: PingMessage,
}

/// Arguments of the `previousPostRequest` view function.
#[derive(Clone, Copy, Debug)]
pub struct PreviousPostRequestCall;

/// Arguments of the `setIsmpHost` function.
#[derive(Clone, Copy, Debug)]
pub struct SetIsmpHostCall {
    pub host_addr: Address,
}

/// Every call of the ping contract.
#[derive(Clone, Debug)]
pub enum PingModuleCalls {
    Dispatch(DispatchCall),
    DispatchWithRequest(DispatchWithRequestCall),
    DispatchPostResponse(DispatchPostResponseCall),
    DispatchToParachain(DispatchToParachainCall),
    Host(HostCall),
    OnAccept(OnAcceptCall),
    OnGetResponse(OnGetResponseCall),
    OnGetTimeout(OnGetTimeoutCall),
    OnPostRequestTimeout(OnPostRequestTimeoutCall),
    OnPostResponse(OnPostResponseCall),
    OnPostResponseTimeout(OnPostResponseTimeoutCall),
    Ping(PingCall),
    PreviousPostRequest(PreviousPostRequestCall),
    SetIsmpHost(SetIsmpHostCall),
}

/// A call to one function of the contract: the target address, the
/// function's four-byte selector carried big-endian in a `u32`, and the
/// typed argument.
#[derive(Clone, Debug)]
pub struct ContractCall {
    pub to: Address,
    pub selector: u32,
    pub payload: PingModuleCalls,
}

/// A request to deploy the contract with the given admin.
#[derive(Clone, Copy, Debug)]
pub struct DeployRequest {
    pub admin: Address,
}

/// Return value of `dispatch`: the request commitment.
#[derive(Clone, Copy, Debug)]
pub struct DispatchReturn(pub [u8; 32]);

/// Return value of the `dispatch` overload.
#[derive(Clone, Copy, Debug)]
pub struct DispatchWithRequestReturn(pub [u8; 32]);

/// Return value of `dispatchPostResponse`: the response commitment.
#[derive(Clone, Copy, Debug)]
pub struct DispatchPostResponseReturn(pub [u8; 32]);

/// Return value of `host`: the ISMP host address.
#[derive(Clone, Copy, Debug)]
pub struct HostReturn(pub Address);

/// Return value of `previousPostRequest`.
#[derive(Clone, Debug)]
pub struct PreviousPostRequestReturn(pub EvmPostRequest);

/// Error of the contract when executing a dispatched message fails.
#[derive(Clone, Copy, Debug, PartialEq, Eq, Structural)]
pub struct ExecutionFailed;

/// Error of the contract when a callback comes from anyone but the host.
#[derive(Clone, Copy, Debug, PartialEq, Eq, Structural)]
pub struct NotIsmpHost;

/// Every custom error of the contract, or the standard revert string.
#[derive(Clone, Debug)]
pub enum PingModuleErrors {
    ExecutionFailed(ExecutionFailed),
    NotIsmpHost(NotIsmpHost),
    RevertString(Vec<u8>),
}

impl PingModuleErrors {
    /// Whether a revert selector belongs to one of the contract's errors:
    /// `ExecutionFailed()`, `NotIsmpHost()`, or `Error(string)`.
    pub fn valid_selector(selector: u32) -> (r: bool)
        ensures
            r <==> (selector == 0xacfdb444u32 || selector == 0x51ab8de5u32 || selector
                == 0x08c379a0u32),
    {
        selector == 0xacfdb444 || selector == 0x51ab8de5 || selector == 0x08c379a0
    }
}

/// The events the contract can emit.
#[derive(Clone, Copy, Debug, PartialEq, Eq, Structural)]
pub enum PingEventKind {
    GetResponseReceivedKind,
    GetTimeoutReceivedKind,
    MessageDispatchedKind,
    PostReceivedKind,
    PostRequestTimeoutReceivedKind,
    PostResponseReceivedKind,
    PostResponseTimeoutReceivedKind,
}

/// The `GetResponseReceived` event.
#[derive(Clone, Copy, Debug)]
pub struct GetResponseReceivedFilter;

/// The `GetTimeoutReceived` event.
#[derive(Clone, Copy, Debug)]
pub struct GetTimeoutReceivedFilter;

/// The `MessageDispatched` event.
#[derive(Clone, Copy, Debug)]
pub struct MessageDispatchedFilter;

/// The `PostReceived` event, carrying the received message.
#[derive(Clone, Debug)]
pub struct PostReceivedFilter {
    pub message: Vec<u8>,
}

/// The `PostRequestTimeoutReceived` event.
#[derive(Clone, Copy, Debug)]
pub struct PostRequestTimeoutReceivedFilter;

/// The `PostResponseReceived` event.
#[derive(Clone, Copy, Debug)]
pub struct PostResponseReceivedFilter;

/// The `PostResponseTimeoutReceived` event.
#[derive(Clone, Copy, Debug)]
pub struct PostResponseTimeoutReceivedFilter;

/// Any event of the contract.
#[derive(Clone, Debug)]
pub enum PingModuleEvents {
    GetResponseReceivedFilter(GetResponseReceivedFilter),
    GetTimeoutReceivedFilter(GetTimeoutReceivedFilter),
    MessageDispatchedFilter(MessageDispatchedFilter),
    PostReceivedFilter(PostReceivedFilter),
    PostRequestTimeoutReceivedFilter(PostRequestTimeoutReceivedFilter),
    PostResponseReceivedFilter(PostResponseReceivedFilter),
    PostResponseTimeoutReceivedFilter(PostResponseTimeoutReceivedFilter),
}

impl PingModuleEvents {
    /// The kind of this event.
    pub fn kind(&self) -> (k: PingEventKind)
        ensures
            k == match self {
                PingModuleEvents::GetResponseReceivedFilter(_) => PingEventKind::GetResponseReceivedKind,
                PingModuleEvents::GetTimeoutReceivedFilter(_) => PingEventKind::GetTimeoutReceivedKind,
                PingModuleEvents::MessageDispatchedFilter(_) => PingEventKind::MessageDispatchedKind,
                PingModuleEvents::PostReceivedFilter(_) => PingEventKind::PostReceivedKind,
                PingModuleEvents::PostRequestTimeoutReceivedFilter(_) => PingEventKind::PostRequestTimeoutReceivedKind,
                PingModuleEvents::PostResponseReceivedFilter(_) => PingEventKind::PostResponseReceivedKind,
                PingModuleEvents::PostResponseTimeoutReceivedFilter(_) => PingEventKind::PostResponseTimeoutReceivedKind,
            },
    {
        match self {
            PingModuleEvents::GetResponseReceivedFilter(_) => PingEventKind::GetResponseReceivedKind,
            PingModuleEvents::GetTimeoutReceivedFilter(_) => PingEventKind::GetTimeoutReceivedKind,
            PingModuleEvents::MessageDispatchedFilter(_) => PingEventKind::MessageDispatchedKind,
            PingModuleEvents::PostReceivedFilter(_) => PingEventKind::PostReceivedKind,
            PingModuleEvents::PostRequestTimeoutReceivedFilter(_) => PingEventKind::PostRequestTimeoutReceivedKind,
            PingModuleEvents::PostResponseReceivedFilter(_) => PingEventKind::PostResponseReceivedKind,
            PingModuleEvents::PostResponseTimeoutReceivedFilter(_) => PingEventKind::PostResponseTimeoutReceivedKind,
        }
    }
}

/// A request for the contract's event log: the contract address and the
/// event to watch, or every event when no kind is named.
#[derive(Clone, Copy, Debug)]
pub struct EventQuery {
    pub contract: Address,
    pub kind: Option<PingEventKind>,
}

/// The ping contract at one address.
#[derive(Clone, Copy, Debug)]
pub struct PingModule {
    pub address: Address,
}

impl PingModule {
    /// A handle on the contract deployed at `address`.
    pub fn new(address: Address) -> (r: PingModule)
        ensures
            r.address == address,
    {
        PingModule { address }
    }

    /// A request to deploy the contract with `admin` as its constructor
    /// argument.
    pub fn deploy(admin: Address) -> (d: DeployRequest)
        ensures
            d.admin == admin,
    {
        DeployRequest { admin }
    }

    /// Builds the `dispatch` (selector `0x0b2f90f0`) call.
    pub fn dispatch(&self, request: EvmGetRequest) -> (c: ContractCall)
        ensures
            c.to == self.address,
            c.selector == 0x0b2f90f0u32,
            c.payload == PingModuleCalls::Dispatch(DispatchCall { request }),
    {
        ContractCall {
            to: self.address,
            selector: 0x0b2f90f0,
            payload: PingModuleCalls::Dispatch(DispatchCall { request }),
        }
    }

    /// Builds the `dispatch` overload (selector `0xec57de54`) call.
    pub fn dispatch_with_request(&self, request: EvmGetRequest) -> (c: ContractCall)
        ensures
            c.to == self.address,
            c.selector == 0xec57de54u32,
            c.payload == PingModuleCalls::DispatchWithRequest(
                DispatchWithRequestCall { request },
            ),
    {
        ContractCall {
            to: self.address,
            selector: 0xec57de54,
            payload: PingModuleCalls::DispatchWithRequest(DispatchWithRequestCall { request }),
        }
    }

    /// Builds the `dispatchPostResponse` (selector `0xc19376c9`) call.
    pub fn dispatch_post_response(&self, response: EvmPostResponse) -> (c: ContractCall)
        ensures
            c.to == self.address,
            c.selector == 0xc19376c9u32,
            c.payload == PingModuleCalls::DispatchPostResponse(
                DispatchPostResponseCall { response },
            ),
    {
        ContractCall {
            to: self.address,
            selector: 0xc19376c9,
            payload: PingModuleCalls::DispatchPostResponse(
                DispatchPostResponseCall { response },
            ),
        }
    }

    /// Builds the `dispatchToParachain` (selector `0x72354e9b`) call.
    pub fn dispatch_to_parachain(&self, para_id: EvmWord) -> (c: ContractCall)
        ensures
            c.to == self.address,
            c.selector == 0x72354e9bu32,
            c.payload == PingModuleCalls::DispatchToParachain(
                DispatchToParachainCall { para_id },
            ),
    {
        ContractCall {
            to: self.address,
            selector: 0x72354e9b,
            payload: PingModuleCalls::DispatchToParachain(DispatchToParachainCall { para_id }),
        }
    }

    /// Builds the `host` (selector `0xf437bc59`) view call.
    pub fn host(&self) -> (c: ContractCall)
        ensures
            c.to == self.address,
            c.selector == 0xf437bc59u32,
            c.payload == PingModuleCalls::Host(HostCall),
    {
        ContractCall {
            to: self.address,
            selector: 0xf437bc59,
            payload: PingModuleCalls::Host(HostCall),
        }
    }

    /// Builds the `onAccept` (selector `0x206c408c`) call.
    pub fn on_accept(&self, incoming: IncomingPostRequest) -> (c: ContractCall)
        ensures
            c.to == self.address,
            c.selector == 0x206c408cu32,
            c.payload == PingModuleCalls::OnAccept(OnAcceptCall { incoming }),
    {
        ContractCall {
            to: self.address,
            selector: 0x206c408c,
            payload: PingModuleCalls::OnAccept(OnAcceptCall { incoming }),
        }
    }

    /// Builds the `onGetResponse` (selector `0xa7f06daf`) call.
    pub fn on_get_response(&self, response: IncomingGetResponse) -> (c: ContractCall)
        ensures
            c.to == self.address,
            c.selector == 0xa7f06dafu32,
            c.payload == PingModuleCalls::OnGetResponse(OnGetResponseCall(response)),
    {
        ContractCall {
            to: self.address,
            selector: 0xa7f06daf,
            payload: PingModuleCalls::OnGetResponse(OnGetResponseCall(response)),
        }
    }

    /// Builds the `onGetTimeout` (selector `0xf5e6a0d5`) call.
    pub fn on_get_timeout(&self, request: EvmGetRequest) -> (c: ContractCall)
        ensures
            c.to == self.address,
            c.selector == 0xf5e6a0d5u32,
            c.payload == PingModuleCalls::OnGetTimeout(OnGetTimeoutCall(request)),
    {
        ContractCall {
            to: self.address,
            selector: 0xf5e6a0d5,
            payload: PingModuleCalls::OnGetTimeout(OnGetTimeoutCall(request)),
        }
    }

    /// Builds the `onPostRequestTimeout` (selector `0x1d89c56f`) call.
    pub fn on_post_request_timeout(&self, request: EvmPostRequest) -> (c: ContractCall)
        ensures
            c.to == self.address,
            c.selector == 0x1d89c56fu32,
            c.payload == PingModuleCalls::OnPostRequestTimeout(OnPostRequestTimeoutCall(request)),
    {
        ContractCall {
            to: self.address,
            selector: 0x1d89c56f,
            payload: PingModuleCalls::OnPostRequestTimeout(OnPostRequestTimeoutCall(request)),
        }
    }

    /// Builds the `onPostResponse` (selector `0x35351e6f`) call.
    pub fn on_post_response(&self, response: IncomingPostResponse) -> (c: ContractCall)
        ensures
            c.to == self.address,
            c.selector == 0x35351e6fu32,
            c.payload == PingModuleCalls::OnPostResponse(OnPostResponseCall(response)),
    {
        ContractCall {
            to: self.address,
            selector: 0x35351e6f,
            payload: PingModuleCalls::OnPostResponse(OnPostResponseCall(response)),
        }
    }

    /// Builds the `onPostResponseTimeout` (selector `0xe37b7942`) call.
    pub fn on_post_response_timeout(&self, response: EvmPostResponse) -> (c: ContractCall)
        ensures
            c.to == self.address,
            c.selector == 0xe37b7942u32,
            c.payload == PingModuleCalls::OnPostResponseTimeout(
                OnPostResponseTimeoutCall(response),
            ),
    {
        ContractCall {
            to: self.address,
            selector: 0xe37b7942,
            payload: PingModuleCalls::OnPostResponseTimeout(OnPostResponseTimeoutCall(response)),
        }
    }

    /// Builds the `ping` (selector `0x4a692e06`) call.
    pub fn ping(&self, ping_message: PingMessage) -> (c: ContractCall)
        ensures
            c.to == self.address,
            c.selector == 0x4a692e06u32,
            c.payload == PingModuleCalls::Ping(PingCall { ping_message }),
    {
        ContractCall {
            to: self.address,
            selector: 0x4a692e06,
            payload: PingModuleCalls::Ping(PingCall { ping_message }),
        }
    }

    /// Builds the `previousPostRequest` (selector `0x88d9f170`) view call.
    pub fn previous_post_request(&self) -> (c: ContractCall)
        ensures
            c.to == self.address,
            c.selector == 0x88d9f170u32,
            c.payload == PingModuleCalls::PreviousPostRequest(PreviousPostRequestCall),
    {
        ContractCall {
            to: self.address,
            selector: 0x88d9f170,
            payload: PingModuleCalls::PreviousPostRequest(PreviousPostRequestCall),
        }
    }

    /// Builds the `setIsmpHost` (selector `0x0e8324a2`) call.
    pub fn set_ismp_host(&self, host_addr: Address) -> (c: ContractCall)
        ensures
            c.to == self.address,
            c.selector == 0x0e8324a2u32,
            c.payload == PingModuleCalls::SetIsmpHost(SetIsmpHostCall { host_addr }),
    {
        ContractCall {
            to: self.address,
            selector: 0x0e8324a2,
            payload: PingModuleCalls::SetIsmpHost(SetIsmpHostCall { host_addr }),
        }
    }

    /// Watches the contract's `GetResponseReceived` events.
    pub fn get_response_received_filter(&self) -> (q: EventQuery)
        ensures
            q.contract == self.address,
            q.kind == Some(PingEventKind::GetResponseReceivedKind),
    {
        EventQuery {
            contract: self.address,
            kind: Some(PingEventKind::GetResponseReceivedKind),
        }
    }

    /// Watches the contract's `GetTimeoutReceived` events.
    pub fn get_timeout_received_filter(&self) -> (q: EventQuery)
        ensures
            q.contract == self.address,
            q.kind == Some(PingEventKind::GetTimeoutReceivedKind),
    {
        EventQuery { contract: self.address, kind: Some(PingEventKind::GetTimeoutReceivedKind) }
    }

    /// Watches the contract's `MessageDispatched` events.
    pub fn message_dispatched_filter(&self) -> (q: EventQuery)
        ensures
            q.contract == self.address,
            q.kind == Some(PingEventKind::MessageDispatchedKind),
    {
        EventQuery { contract: self.address, kind: Some(PingEventKind::MessageDispatchedKind) }
    }

    /// Watches the contract's `PostReceived` events.
    pub fn post_received_filter(&self) -> (q: EventQuery)
        ensures
            q.contract == self.address,
            q.kind == Some(PingEventKind::PostReceivedKind),
    {
        EventQuery { contract: self.address, kind: Some(PingEventKind::PostReceivedKind) }
    }

    /// Watches the contract's `PostRequestTimeoutReceived` events.
    pub fn post_request_timeout_received_filter(&self) -> (q: EventQuery)
        ensures
            q.contract == self.address,
            q.kind == Some(PingEventKind::PostRequestTimeoutReceivedKind),
    {
        EventQuery {
            contract: self.address,
            kind: Some(PingEventKind::PostRequestTimeoutReceivedKind),
        }
    }

    /// Watches the contract's `PostResponseReceived` events.
    pub fn post_response_received_filter(&self) -> (q: EventQuery)
        ensures
            q.contract == self.address,
            q.kind == Some(PingEventKind::PostResponseReceivedKind),
    {
        EventQuery {
            contract: self.address,
            kind: Some(PingEventKind::PostResponseReceivedKind),
        }
    }

    /// Watches the contract's `PostResponseTimeoutReceived` events.
    pub fn post_response_timeout_received_filter(&self) -> (q: EventQuery)
        ensures
            q.contract == self.address,
            q.kind == Some(PingEventKind::PostResponseTimeoutReceivedKind),
    {
        EventQuery {
            contract: self.address,
            kind: Some(PingEventKind::PostResponseTimeoutReceivedKind),
        }
    }

    /// Watches every event of the contract.
    pub fn events(&self) -> (q: EventQuery)
        ensures
            q.contract == self.address,
            q.kind is None,
    {
        EventQuery { contract: self.address, kind: None }
    }
}

} // verus!
