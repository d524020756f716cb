//! The typed failure surface of the bridge core: node-client failures wrapped
//! opaquely, library failures collapsed to matchable markers, and
//! protocol-state violations.
use vstd::prelude::*;

verus! {

/// Relied-on declaration of `bitcoincore_rpc::Error`, the error type of the
/// Bitcoin node RPC client. Carried through unchanged; nothing is assumed of
/// its values.
#[verifier::external_type_specification]
#[verifier::external_body]
pub struct ExRpcClientError(bitcoincore_rpc::Error);

/// Errors returned by outside libraries, wrapped unchanged for the caller.
pub enum ExternalError {
    /// A failure reported by the Bitcoin node RPC client.
    RpcError(bitcoincore_rpc::Error),
}

/// Errors returned by the bridge core.
#[derive(Clone, Copy, Debug, PartialEq, Eq, Structural)]
pub enum BridgeError {
    /// The operator already has a deposit in flight.
    OperatorPendingDeposit,
    /// A block height fell outside the active bridging period.
    InvalidPeriod,
    /// An unclassified failure.
    Error,
    /// The secp256k1 library reported an error.
    Secpk256Error,
    /// The transaction library reported an error while computing a sighash.
    BitcoinSighashError,
    /// A deposit was found that does not yet have enough confirmations.
    DepositNotFinalized,
    /// A deposit UTXO does not match the expected value and script.
    InvalidDepositUTXO,
    /// A UTXO was already spent.
    UTXOSpent,
    /// The presign bundles could not be collected.
    FailedToGetPresigns,
    /// A txid was not found in the block looked at.
    TxidNotFound,
    /// The Bitcoin node RPC client reported an error.
    BitcoinRpcError,
    /// Confirmation data was missing for a transaction.
    NoConfirmationData,
    /// A byte vector had the wrong length for a fixed-size value.
    VecConversionError,
    /// A slice had the wrong length for a fixed-size value.
    TryFromSliceError,
    /// The transaction library rejected a transaction.
    BitcoinTransactionError,
    /// An expected input was not found in a transaction.
    TxInputNotFound,
    /// A needed preimage was not found in the connector tree or claim proof.
    PreimageNotFound,
    /// The taproot builder rejected the script leaves (they must come in
    /// depth-first order).
    TaprootBuilderError,
    /// A taproot control block could not be produced.
    ControlBlockError,
    /// The public key and secret key lists have different lengths.
    PkSkLengthMismatch,
    /// A public key was not found among the committee's keys.
    PublicKeyNotFound,
    /// The operator key did not match the expected one.
    InvalidOperatorKey,
    /// The operator was already initialized.
    AlreadyInitialized,
    /// A block hash was not found.
    BlockhashNotFound,
    /// A block was not found.
    BlockNotFound,
    /// The accumulator is full: every leaf slot is taken.
    Overflow,
    /// A spend of a tracked connector-tree node did not produce two child
    /// outputs of equal value.
    SplitViolation,
}

} // verus!
