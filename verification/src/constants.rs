//! Protocol parameters. Every one of these must be identical across the
//! operator and all verifiers of a bridging period.
use vstd::prelude::*;

verus! {

/// Number of verifiers in the active committee.
pub const NUM_VERIFIERS: usize = 4;

/// Number of users served per bridging period.
pub const NUM_USERS: usize = 4;

/// Relative-timelock block count after which the operator may sweep a
/// connector-tree node if no verifier has claimed it with a preimage.
pub const CONNECTOR_TREE_OPERATOR_TAKES_AFTER: u16 = 1;

/// Depth of the connector UTXO tree below the source connector UTXO; tied to
/// the claim circuit's Merkle depth constant.
pub const CONNECTOR_TREE_DEPTH: u32 = 32;

/// Dust value for mempool acceptance, in satoshis.
pub const DUST_VALUE: u64 = 1000;

/// Minimum relay fee for mempool acceptance, in satoshis.
pub const MIN_RELAY_FEE: u64 = 500;

/// Blocks per bridging period.
pub const PERIOD_BLOCK_COUNT: u32 = 25920;

/// Blocks after which a user may take a deposit back if bridging does not
/// happen.
pub const USER_TAKES_AFTER: u32 = 200;

/// Confirmations the bridge requires before accepting a deposit.
pub const CONFIRMATION_BLOCK_COUNT: u32 = 6;

/// Value of a valid deposit output, in satoshis.
pub const BRIDGE_AMOUNT_SATS: u64 = 100_000_000;

/// Sequence value that opts an input out of relative-timelock semantics.
pub const DEFAULT_SEQUENCE: u32 = 0xFFFFFFFF;

} // verus!
