//! The ping contract front end: selectors, payloads, event queries.

use tesseract::encoder::EvmGetRequest;
use tesseract::ping::{
    EvmWord, PingEventKind, PingMessage, PingModule, PingModuleCalls, PingModuleErrors,
    PingModuleEvents, PostReceivedFilter,
};

fn get_request() -> EvmGetRequest {
    EvmGetRequest {
        source: b"EVM-97".to_vec(),
        dest: b"POLKADOT-2000".to_vec(),
        nonce: 1,
        from: vec![2],
        keys: vec![vec![3]],
        timeout_timestamp: 4,
        gaslimit: 5,
        height: 6,
    }
}

#[test]
fn calls_carry_the_contract_address_and_their_selector() {
    let contract = PingModule::new([0xAB; 20]);
    let call = contract.dispatch(get_request());
    assert_eq!(call.to, [0xAB; 20]);
    assert_eq!(call.selector, 0x0b2f90f0);
    assert!(matches!(call.payload, PingModuleCalls::Dispatch(c) if c.request.nonce == 1));
    assert_eq!(contract.dispatch_with_request(get_request()).selector, 0xec57de54);
    assert_eq!(contract.host().selector, 0xf437bc59);
    assert_eq!(contract.set_ismp_host([1; 20]).selector, 0x0e8324a2);
    assert_eq!(contract.previous_post_request().selector, 0x88d9f170);
    assert_eq!(contract.dispatch_to_parachain(EvmWord([0; 32])).selector, 0x72354e9b);
    assert_eq!(contract.on_get_timeout(get_request()).selector, 0xf5e6a0d5);
}

#[test]
fn ping_call_keeps_its_message() {
    let contract = PingModule::new([1; 20]);
    let call = contract.ping(PingMessage {
        dest: b"EVM-97".to_vec(),
        module: [2; 20],
        timeout: 60,
        count: EvmWord([0; 32]),
        fee: EvmWord([0; 32]),
    });
    assert_eq!(call.selector, 0x4a692e06);
    match call.payload {
        PingModuleCalls::Ping(c) => {
            assert_eq!(c.ping_message.dest, b"EVM-97".to_vec());
            assert_eq!(c.ping_message.timeout, 60);
        },
        other => panic!("wrong payload {other:?}"),
    }
}

#[test]
fn event_filters_name_their_event_and_the_catch_all_names_none() {
    let contract = PingModule::new([3; 20]);
    let q = contract.post_received_filter();
    assert_eq!(q.contract, [3; 20]);
    assert_eq!(q.kind, Some(PingEventKind::PostReceivedKind));
    assert_eq!(
        contract.message_dispatched_filter().kind,
        Some(PingEventKind::MessageDispatchedKind)
    );
    assert_eq!(
        contract.post_response_timeout_received_filter().kind,
        Some(PingEventKind::PostResponseTimeoutReceivedKind)
    );
    assert_eq!(contract.events().kind, None);
}

#[test]
fn event_values_know_their_kind() {
    let ev = PingModuleEvents::PostReceivedFilter(PostReceivedFilter { message: vec![1] });
    assert_eq!(ev.kind(), PingEventKind::PostReceivedKind);
}

#[test]
fn only_the_contract_error_selectors_are_valid() {
    assert!(PingModuleErrors::valid_selector(0xacfdb444));
    assert!(PingModuleErrors::valid_selector(0x51ab8de5));
    assert!(PingModuleErrors::valid_selector(0x08c379a0));
    assert!(!PingModuleErrors::valid_selector(0x12345678));
}

#[test]
fn deployment_requests_carry_the_admin() {
    let d = PingModule::deploy([9; 20]);
    assert_eq!(d.admin, [9; 20]);
}
