//! Routing of incoming XCM deposits into cross-chain requests.
//!
//! A deposit addressed to the asset gateway names, in a three-junction
//! location, the refund account on the hub, the destination EVM account
//! with its network, and a timeout. The gateway splits a protocol fee off
//! the deposited amount, custodies the remainder, and dispatches a request
//! to the destination chain.

use vstd::prelude::*;
use crate::ids::StateMachine;

verus! {

/// The network a junction may name.
#[derive(Clone, Copy, Debug)]
pub enum NetworkId {
    EthereumNetwork { chain_id: u64 },
    PolkadotNetwork,
    KusamaNetwork,
    OtherNetwork,
}

/// A network id wrapped for conversion into a chain tag.
#[derive(Clone, Copy, Debug)]
pub struct WrappedNetworkId(pub NetworkId);

/// The chain tag of a network id: only Ethereum networks convert.
pub open spec fn spec_network_state_machine(n: NetworkId) -> Option<StateMachine> {
    match n {
        NetworkId::EthereumNetwork { chain_id } => Some(StateMachine::Evm(chain_id as u32)),
        _ => None,
    }
}

impl WrappedNetworkId {
    /// Converts an Ethereum network id into its chain tag; any other
    /// network is refused.
    pub fn into_state_machine(self) -> (r: Result<StateMachine, ()>)
        ensures
            match r {
                Ok(sm) => spec_network_state_machine(self.0) == Some(sm),
                Err(_) => spec_network_state_machine(self.0) is None,
            },
    {
        match self.0 {
            NetworkId::EthereumNetwork { chain_id } => Ok(
                StateMachine::Evm(chain_id as u32),
            ),
            _ => Err(()),
        }
    }
}

/// One junction of a location.
#[derive(Clone, Copy, Debug)]
pub enum Junction {
    AccountId32Junction { id: [u8; 32] },
    AccountKey20Junction { network: Option<NetworkId>, key: [u8; 20] },
    GeneralIndexJunction { index: u128 },
    OtherJunction,
}

/// The interior of a location, as far as the gateway reads it.
#[derive(Clone, Copy, Debug)]
pub enum Junctions {
    X3(Junction, Junction, Junction),
    OtherJunctions,
}

/// A location on the consensus graph.
#[derive(Clone, Copy, Debug)]
pub struct MultiLocation {
    pub parents: u8,
    pub interior: Junctions,
}

/// Converts locations of the supported three-junction shape into accounts.
#[derive(Clone, Copy, Debug)]
pub struct MultilocationToMultiAccount;

/// The accounts and routing a supported location names.
#[derive(Clone, Copy, Debug)]
pub struct MultiAccount {
    /// Origin substrate account.
    pub substrate_account: [u8; 32],
    /// Destination evm account.
    pub evm_account: [u8; 20],
    /// Destination state machine.
    pub dest_state_machine: StateMachine,
    /// Request timeout in seconds.
    pub timeout: u64,
}

/// The accounts a location names, when it has the supported shape: no
/// parents, and exactly a 32-byte account, a 20-byte key on a named
/// Ethereum network, and a general index that serves as the timeout.
pub open spec fn spec_convert_location(location: MultiLocation) -> Option<MultiAccount> {
    match location.interior {
        Junctions::X3(
            Junction::AccountId32Junction { id },
            Junction::AccountKey20Junction { network: Some(network), key },
            Junction::GeneralIndexJunction { index },
        ) => {
            if location.parents == 0 {
                match spec_network_state_machine(network) {
                    Some(sm) => Some(
                        MultiAccount {
                            substrate_account: id,
                            evm_account: key,
                            dest_state_machine: sm,
                            timeout: index as u64,
                        },
                    ),
                    None => None,
                }
            } else {
                None
            }
        },
        _ => None,
    }
}

impl MultilocationToMultiAccount {
    /// Reads the supported three-junction shape out of a location;
    /// `None` for every other shape.
    pub fn convert_location(location: &MultiLocation) -> (r: Option<MultiAccount>)
        ensures
            r == spec_convert_location(*location),
    {
        match location.interior {
            Junctions::X3(
                Junction::AccountId32Junction { id },
                Junction::AccountKey20Junction { network: Some(network), key },
                Junction::GeneralIndexJunction { index },
            ) => {
                if location.parents != 0 {
                    return None;
                }
                match (WrappedNetworkId(network)).into_state_machine() {
                    Ok(sm) => Some(
                        MultiAccount {
                            substrate_account: id,
                            evm_account: key,
                            dest_state_machine: sm,
                            timeout: index as u64,
                        },
                    ),
                    Err(_) => None,
                }
            },
            _ => None,
        }
    }
}

/// One part per million, the precision of the protocol fee.
pub const FEE_SCALE: u64 = 1000000;

/// The protocol fee on `amount` at `fee_ppm` parts per million, rounded
/// down.
pub open spec fn spec_protocol_fee(amount: u128, fee_ppm: u64) -> int {
    (amount * fee_ppm) / (FEE_SCALE as int)
}

/// Splits the protocol fee off a deposited amount: returns the fee and the
/// remainder, which always add up to the amount.
pub fn split_protocol_fee(amount: u128, fee_ppm: u64) -> (r: (u128, u128))
    requires
        fee_ppm <= FEE_SCALE,
    ensures
        r.0 == spec_protocol_fee(amount, fee_ppm),
        r.0 + r.1 == amount,
        r.0 <= amount,
{
    let q = amount / (FEE_SCALE as u128);
    let rem = amount % (FEE_SCALE as u128);
    proof {
        lemma_fee_split(amount as int, fee_ppm as int);
    }
    let fees = q * (fee_ppm as u128) + (rem * (fee_ppm as u128)) / (FEE_SCALE as u128);
    (fees, amount - fees)
}

/// The fee computation splits across the division: hashing out
/// `(a / s) * p + ((a % s) * p) / s == (a * p) / s`, and the fee never
/// exceeds the amount when the rate is at most one.
proof fn lemma_fee_split(a: int, p: int)
    requires
        0 <= a <= u128::MAX,
        0 <= p <= FEE_SCALE,
    ensures
        (a / (FEE_SCALE as int)) * p + ((a % (FEE_SCALE as int)) * p) / (FEE_SCALE as int) == (a
            * p) / (FEE_SCALE as int),
        (a * p) / (FEE_SCALE as int) <= a,
        (a / (FEE_SCALE as int)) * p <= u128::MAX,
        (a % (FEE_SCALE as int)) * p <= u128::MAX,
        (a / (FEE_SCALE as int)) * p + ((a % (FEE_SCALE as int)) * p) / (FEE_SCALE as int)
            <= u128::MAX,
{
    let s = FEE_SCALE as int;
    let q = a / s;
    let r = a % s;
    vstd::arithmetic::div_mod::lemma_fundamental_div_mod(a, s);
    assert(a == q * s + r);
    assert(a * p == (q * p) * s + r * p) by (nonlinear_arith)
        requires
            a == q * s + r,
    ;
    vstd::arithmetic::div_mod::lemma_hoist_over_denominator(r * p, q * p, s as nat);
    assert((r * p) / s + q * p == (r * p + (q * p) * s) / s);
    assert(r * p + (q * p) * s == a * p) by (nonlinear_arith)
        requires
            a == q * s + r,
    ;
    assert((r * p) / s <= r * p) by {
        vstd::arithmetic::div_mod::lemma_div_is_ordered_by_denominator(r * p, 1, s);
    }
    assert(q * p <= q * s) by (nonlinear_arith)
        requires
            0 <= p <= s,
            0 <= q,
    ;
    assert(r * p <= r * s) by (nonlinear_arith)
        requires
            0 <= p <= s,
            0 <= r,
    ;
    assert((r * p) / s <= r) by {
        vstd::arithmetic::div_mod::lemma_div_is_ordered(r * p, r * s, s);
        vstd::arithmetic::div_mod::lemma_div_by_multiple(r, s);
    }
}

/// Why an XCM deposit was refused.
#[derive(Clone, Copy, Debug, PartialEq, Eq, Structural)]
pub enum XcmDepositError {
    /// The location does not have the supported shape.
    AccountIdConversionFailed,
}

/// The book entries of one accepted deposit.
#[derive(Clone, Copy, Debug)]
pub struct DepositPlan {
    /// Fee minted to the protocol account.
    pub protocol_fee: u128,
    /// Remainder minted to the pallet (custody) account.
    pub custody_amount: u128,
    /// The request dispatched to the destination chain.
    pub dispatch: MultiAccount,
}

/// Plans one deposit: the location must name the supported account shape;
/// the protocol fee is split off and the remainder is custodied and
/// dispatched. Fee and custody amount always add up to the deposit.
pub fn deposit_asset_plan(amount: u128, who: &MultiLocation, fee_ppm: u64) -> (r: Result<
    DepositPlan,
    XcmDepositError,
>)
    requires
        fee_ppm <= FEE_SCALE,
    ensures
        match r {
            Ok(plan) => {
                &&& spec_convert_location(*who) is Some
                &&& plan.dispatch == spec_convert_location(*who).unwrap()
                &&& plan.protocol_fee == spec_protocol_fee(amount, fee_ppm)
                &&& plan.protocol_fee + plan.custody_amount == amount
            },
            Err(e) => e == XcmDepositError::AccountIdConversionFailed && spec_convert_location(
                *who,
            ) is None,
        },
{
    let dispatch = match MultilocationToMultiAccount::convert_location(who) {
        Some(d) => d,
        None => {
            return Err(XcmDepositError::AccountIdConversionFailed);
        },
    };
    let (protocol_fee, custody_amount) = split_protocol_fee(amount, fee_ppm);
    Ok(DepositPlan { protocol_fee, custody_amount, dispatch })
}

} // verus!
