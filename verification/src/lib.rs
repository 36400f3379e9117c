//! Verified core of a cross-chain message relayer.
//!
//! The crate models the data and decision logic of a relayer that couples a
//! Substrate-based hub chain to EVM chains and rollups: nonce allocation,
//! membership-proof decoding and message encoding, rollup payload assembly,
//! and the state machines of the consensus and messaging relay pipelines.

pub mod encoder;
pub mod events;
pub mod ids;
pub mod messages;
pub mod mmr;
pub mod nonce;
pub mod orchestrator;
pub mod ping;
pub mod provider;
pub mod relay;
pub mod rollup;
pub mod scale;
pub mod supervisor;
pub mod xcm;
