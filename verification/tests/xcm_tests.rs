//! XCM deposit routing: location shapes and the fee split.

use tesseract::ids::StateMachine;
use tesseract::xcm::{
    deposit_asset_plan, split_protocol_fee, Junction, Junctions, MultiLocation,
    MultilocationToMultiAccount, NetworkId, WrappedNetworkId, XcmDepositError,
};

fn supported_location() -> MultiLocation {
    MultiLocation {
        parents: 0,
        interior: Junctions::X3(
            Junction::AccountId32Junction { id: [7; 32] },
            Junction::AccountKey20Junction {
                network: Some(NetworkId::EthereumNetwork { chain_id: 97 }),
                key: [9; 20],
            },
            Junction::GeneralIndexJunction { index: 3600 },
        ),
    }
}

#[test]
fn the_supported_location_shape_converts() {
    let account = MultilocationToMultiAccount::convert_location(&supported_location()).unwrap();
    assert_eq!(account.substrate_account, [7; 32]);
    assert_eq!(account.evm_account, [9; 20]);
    assert!(account.dest_state_machine.same_as(&StateMachine::Evm(97)));
    assert_eq!(account.timeout, 3600);
}

#[test]
fn other_location_shapes_are_refused() {
    let mut wrong_parents = supported_location();
    wrong_parents.parents = 1;
    assert!(MultilocationToMultiAccount::convert_location(&wrong_parents).is_none());
    let not_x3 = MultiLocation { parents: 0, interior: Junctions::OtherJunctions };
    assert!(MultilocationToMultiAccount::convert_location(&not_x3).is_none());
    let wrong_network = MultiLocation {
        parents: 0,
        interior: Junctions::X3(
            Junction::AccountId32Junction { id: [7; 32] },
            Junction::AccountKey20Junction {
                network: Some(NetworkId::PolkadotNetwork),
                key: [9; 20],
            },
            Junction::GeneralIndexJunction { index: 1 },
        ),
    };
    assert!(MultilocationToMultiAccount::convert_location(&wrong_network).is_none());
}

#[test]
fn only_ethereum_networks_convert_to_chain_tags() {
    let ok = WrappedNetworkId(NetworkId::EthereumNetwork { chain_id: 1 });
    assert!(ok.into_state_machine().unwrap().same_as(&StateMachine::Evm(1)));
    assert!(WrappedNetworkId(NetworkId::KusamaNetwork).into_state_machine().is_err());
    assert!(WrappedNetworkId(NetworkId::OtherNetwork).into_state_machine().is_err());
}

#[test]
fn the_fee_split_is_exact_and_conserves_the_amount() {
    // one tenth of a percent of one million units
    let (fee, rest) = split_protocol_fee(1_000_000, 1000);
    assert_eq!(fee, 1000);
    assert_eq!(rest, 999_000);
    // rounding goes to the depositor
    let (fee, rest) = split_protocol_fee(999, 1000);
    assert_eq!(fee, 0);
    assert_eq!(rest, 999);
    // huge amounts do not overflow
    let (fee, rest) = split_protocol_fee(u128::MAX, 250_000);
    assert_eq!(fee, u128::MAX / 4);
    assert_eq!(fee + rest, u128::MAX);
}

#[test]
fn a_deposit_plan_mints_fee_and_custody_and_dispatches() {
    let plan = deposit_asset_plan(1_000_000, &supported_location(), 1000).unwrap();
    assert_eq!(plan.protocol_fee, 1000);
    assert_eq!(plan.custody_amount, 999_000);
    assert_eq!(plan.dispatch.timeout, 3600);
    let refused = deposit_asset_plan(
        5,
        &MultiLocation { parents: 0, interior: Junctions::OtherJunctions },
        1000,
    );
    assert_eq!(refused.unwrap_err(), XcmDepositError::AccountIdConversionFailed);
}
