//! The deposit presigning protocol, verifier side: validate the deposit
//! UTXO, then deterministically build the kickoff and operator-claim
//! transaction templates and the rollup binding message. Every verifier
//! running this over the same inputs builds byte-identical templates, so the
//! committee's signatures, produced by the embedding layer over these
//! artifacts, all commit to the same transactions.
use vstd::prelude::*;

use crate::chain::{
    clone_bytes, compute_txid, op_view, template_view, txid_of, OutPoint, OutPointV, TxIn, TxOut,
    TxTemplate, TxTemplateV,
};
use crate::constants::{
    BRIDGE_AMOUNT_SATS, CONFIRMATION_BLOCK_COUNT, CONNECTOR_TREE_OPERATOR_TAKES_AFTER,
    DEFAULT_SEQUENCE, DUST_VALUE, MIN_RELAY_FEE,
};
use crate::errors::BridgeError;
use crate::hash::{push_bytes, Data};
use crate::watcher::Verifier;

verus! {

/// A bridged-side account address.
pub type EVMAddress = [u8; 20];

/// What the embedding layer observed on chain of a deposit UTXO.
pub struct DepositUtxoInfo {
    pub value: u64,
    pub script_pubkey: Vec<u8>,
    pub confirmations: u32,
    pub spent: bool,
    pub confirmation_time: Option<u32>,
}

/// The deposit acceptance rule: the UTXO must be unspent, carry exactly the
/// bridge amount under the expected deposit script, and be confirmed deeply
/// enough with confirmation data present; the result is its confirmation
/// timestamp.
pub open spec fn check_deposit_spec(info: DepositUtxoInfo, expected_spk: Seq<u8>) -> Result<
    u32,
    BridgeError,
> {
    if info.spent {
        Err(BridgeError::UTXOSpent)
    } else if info.value != BRIDGE_AMOUNT_SATS || info.script_pubkey@ != expected_spk {
        Err(BridgeError::InvalidDepositUTXO)
    } else if info.confirmations < CONFIRMATION_BLOCK_COUNT {
        Err(BridgeError::DepositNotFinalized)
    } else if info.confirmation_time is None {
        Err(BridgeError::NoConfirmationData)
    } else {
        Ok(info.confirmation_time.unwrap())
    }
}

/// Validates an observed deposit UTXO against the expected deposit script;
/// on acceptance returns the confirmation timestamp.
pub fn check_deposit(info: &DepositUtxoInfo, expected_script_pubkey: &Vec<u8>) -> (r: Result<
    u32,
    BridgeError,
>)
    ensures
        r == check_deposit_spec(*info, expected_script_pubkey@),
{
    if info.spent {
        return Err(BridgeError::UTXOSpent);
    }
    if info.value != BRIDGE_AMOUNT_SATS {
        return Err(BridgeError::InvalidDepositUTXO);
    }
    if !crate::chain::bytes_eq(&info.script_pubkey, expected_script_pubkey) {
        return Err(BridgeError::InvalidDepositUTXO);
    }
    if info.confirmations < CONFIRMATION_BLOCK_COUNT {
        return Err(BridgeError::DepositNotFinalized);
    }
    match info.confirmation_time {
        Some(t) => Ok(t),
        None => Err(BridgeError::NoConfirmationData),
    }
}

/// The kickoff template: it spends the deposit UTXO into the committee's
/// multisig script, the relay fee coming out of the bridged value.
pub open spec fn kickoff_tx_spec(deposit: OutPointV, multisig_spk: Seq<u8>) -> TxTemplateV {
    (
        seq![(deposit, DEFAULT_SEQUENCE)],
        seq![(((BRIDGE_AMOUNT_SATS - MIN_RELAY_FEE) as u64, multisig_spk))],
    )
}

/// The operator-claim template: it spends the kickoff output together with
/// the deposit's connector-tree leaf (under the leaf's relative timelock
/// discipline) and pays the combined value minus the fee to the operator.
pub open spec fn operator_claim_tx_spec(
    kickoff_txid: Seq<u8>,
    connector_leaf: OutPointV,
    operator_spk: Seq<u8>,
) -> TxTemplateV {
    (
        seq![
            ((kickoff_txid, 0u32), DEFAULT_SEQUENCE),
            (connector_leaf, CONNECTOR_TREE_OPERATOR_TAKES_AFTER as u32),
        ],
        seq![
            (((BRIDGE_AMOUNT_SATS - MIN_RELAY_FEE + DUST_VALUE - MIN_RELAY_FEE) as u64,
            operator_spk)),
        ],
    )
}

/// The big-endian bytes of a 32-bit value.
pub open spec fn u32_be_bytes(x: u32) -> Seq<u8> {
    seq![
        (x / 0x1000000) as u8,
        ((x / 0x10000) % 0x100) as u8,
        ((x / 0x100) % 0x100) as u8,
        (x % 0x100) as u8,
    ]
}

/// The message whose signature binds the deposit to a bridged-side account:
/// the kickoff txid, the destination account, the commitment hash, and the
/// confirmation timestamp, big endian, laid end to end.
pub open spec fn rollup_message_spec(
    kickoff_txid: Seq<u8>,
    evm_address: Seq<u8>,
    commit_hash: Seq<u8>,
    timestamp: u32,
) -> Seq<u8> {
    kickoff_txid + evm_address + commit_hash + u32_be_bytes(timestamp)
}

/// The deterministic presigning artifacts for one deposit: the two unsigned
/// templates, the kickoff txid, the rollup binding message, and the deposit's
/// confirmation timestamp. The embedding layer signs these.
pub struct DepositTemplates {
    pub kickoff_tx: TxTemplate,
    pub kickoff_txid: Data,
    pub operator_claim_tx: TxTemplate,
    pub rollup_message: Vec<u8>,
    pub confirmation_timestamp: u32,
}

impl Verifier {
    /// Runs the presigning protocol for one deposit: validates the observed
    /// deposit UTXO (no artifact is built on an invalid deposit), then
    /// deterministically builds the kickoff template, its txid, the
    /// operator-claim template over the connector-tree leaf chosen by
    /// `index`, and the rollup binding message.
    ///
    /// The deposit, multisig and operator script pubkeys are derived by the
    /// embedding layer from the commitment hash, the return address and the
    /// committee's ordered keys, so the committee's agreement on those inputs
    /// makes every verifier build the same artifacts.
    pub fn new_deposit(
        &self,
        utxo: OutPoint,
        index: u32,
        hash: Data,
        evm_address: EVMAddress,
        deposit_info: &DepositUtxoInfo,
        deposit_script_pubkey: &Vec<u8>,
        multisig_script_pubkey: &Vec<u8>,
        operator_script_pubkey: &Vec<u8>,
    ) -> (r: Result<DepositTemplates, BridgeError>)
        requires
            self.connector_tree_utxos@.len() > 0,
            index < self.connector_tree_utxos@[self.connector_tree_utxos@.len() - 1]@.len(),
        ensures
            match r {
                Ok(t) => {
                    &&& check_deposit_spec(*deposit_info, deposit_script_pubkey@) == Ok::<
                        _,
                        BridgeError,
                    >(t.confirmation_timestamp)
                    &&& template_view(t.kickoff_tx) == kickoff_tx_spec(
                        op_view(utxo),
                        multisig_script_pubkey@,
                    )
                    &&& t.kickoff_txid@ == txid_of(
                        kickoff_tx_spec(op_view(utxo), multisig_script_pubkey@),
                    )
                    &&& template_view(t.operator_claim_tx) == operator_claim_tx_spec(
                        t.kickoff_txid@,
                        op_view(
                            self.connector_tree_utxos@[self.connector_tree_utxos@.len() - 1]@[index as int],
                        ),
                        operator_script_pubkey@,
                    )
                    &&& t.rollup_message@ == rollup_message_spec(
                        t.kickoff_txid@,
                        evm_address@,
                        hash@,
                        t.confirmation_timestamp,
                    )
                },
                Err(e) => check_deposit_spec(*deposit_info, deposit_script_pubkey@) == Err::<
                    u32,
                    _,
                >(e),
            },
    {
        let timestamp = match check_deposit(deposit_info, deposit_script_pubkey) {
            Ok(t) => t,
            Err(e) => {
                return Err(e);
            },
        };
        let mut kickoff_inputs: Vec<TxIn> = Vec::new();
        kickoff_inputs.push(TxIn { previous_output: utxo, sequence: DEFAULT_SEQUENCE });
        let mut kickoff_outputs: Vec<TxOut> = Vec::new();
        kickoff_outputs.push(
            TxOut {
                value: BRIDGE_AMOUNT_SATS - MIN_RELAY_FEE,
                script_pubkey: clone_bytes(multisig_script_pubkey),
            },
        );
        let kickoff_tx = TxTemplate { inputs: kickoff_inputs, outputs: kickoff_outputs };
        proof {
            assert(template_view(kickoff_tx).0 =~= kickoff_tx_spec(
                op_view(utxo),
                multisig_script_pubkey@,
            ).0);
            assert(template_view(kickoff_tx).1 =~= kickoff_tx_spec(
                op_view(utxo),
                multisig_script_pubkey@,
            ).1);
        }
        let kickoff_txid = compute_txid(&kickoff_tx);
        let row = self.connector_tree_utxos.len() - 1;
        let leaf = self.connector_tree_utxos[row][index as usize];
        let mut claim_inputs: Vec<TxIn> = Vec::new();
        claim_inputs.push(
            TxIn {
                previous_output: OutPoint { txid: kickoff_txid, vout: 0 },
                sequence: DEFAULT_SEQUENCE,
            },
        );
        claim_inputs.push(
            TxIn { previous_output: leaf, sequence: CONNECTOR_TREE_OPERATOR_TAKES_AFTER as u32 },
        );
        let mut claim_outputs: Vec<TxOut> = Vec::new();
        claim_outputs.push(
            TxOut {
                value: BRIDGE_AMOUNT_SATS - MIN_RELAY_FEE + DUST_VALUE - MIN_RELAY_FEE,
                script_pubkey: clone_bytes(operator_script_pubkey),
            },
        );
        let operator_claim_tx = TxTemplate { inputs: claim_inputs, outputs: claim_outputs };
        proof {
            assert(template_view(operator_claim_tx).0 =~= operator_claim_tx_spec(
                kickoff_txid@,
                op_view(leaf),
                operator_script_pubkey@,
            ).0);
            assert(template_view(operator_claim_tx).1 =~= operator_claim_tx_spec(
                kickoff_txid@,
                op_view(leaf),
                operator_script_pubkey@,
            ).1);
        }
        let mut rollup_message: Vec<u8> = Vec::new();
        push_bytes(&mut rollup_message, &kickoff_txid);
        push_bytes(&mut rollup_message, &evm_address);
        push_bytes(&mut rollup_message, &hash);
        proof {
            assert(timestamp / 0x1000000 < 0x100 && timestamp / 0x10000 < 0x10000 && timestamp
                / 0x100 < 0x1000000) by (nonlinear_arith)
                requires
                    timestamp <= u32::MAX,
            ;
        }
        let t0: u8 = (timestamp / 0x1000000) as u8;
        let t1: u8 = ((timestamp / 0x10000) % 0x100) as u8;
        let t2: u8 = ((timestamp / 0x100) % 0x100) as u8;
        let t3: u8 = (timestamp % 0x100) as u8;
        let ghost before_ts = rollup_message@;
        rollup_message.push(t0);
        rollup_message.push(t1);
        rollup_message.push(t2);
        rollup_message.push(t3);
        proof {
            assert(rollup_message@ =~= before_ts + u32_be_bytes(timestamp));
            assert(rollup_message@ =~= rollup_message_spec(
                kickoff_txid@,
                evm_address@,
                hash@,
                timestamp,
            ));
        }
        Ok(
            DepositTemplates {
                kickoff_tx,
                kickoff_txid,
                operator_claim_tx,
                rollup_message,
                confirmation_timestamp: timestamp,
            },
        )
    }
}

/// Law: presigning is deterministic. The unsigned artifacts are functions of
/// the deposit outpoint, the chosen connector leaf, the derived scripts, the
/// commitment hash, the destination account and the timestamp alone: two
/// artifact bundles built over the same inputs agree byte for byte.
pub proof fn lemma_presign_deterministic(
    a: DepositTemplates,
    b: DepositTemplates,
    utxo: OutPointV,
    leaf: OutPointV,
    multisig_spk: Seq<u8>,
    operator_spk: Seq<u8>,
    evm_address: Seq<u8>,
    commit_hash: Seq<u8>,
    timestamp: u32,
)
    requires
        template_view(a.kickoff_tx) == kickoff_tx_spec(utxo, multisig_spk),
        a.kickoff_txid@ == txid_of(kickoff_tx_spec(utxo, multisig_spk)),
        template_view(a.operator_claim_tx) == operator_claim_tx_spec(
            a.kickoff_txid@,
            leaf,
            operator_spk,
        ),
        a.rollup_message@ == rollup_message_spec(
            a.kickoff_txid@,
            evm_address,
            commit_hash,
            timestamp,
        ),
        template_view(b.kickoff_tx) == kickoff_tx_spec(utxo, multisig_spk),
        b.kickoff_txid@ == txid_of(kickoff_tx_spec(utxo, multisig_spk)),
        template_view(b.operator_claim_tx) == operator_claim_tx_spec(
            b.kickoff_txid@,
            leaf,
            operator_spk,
        ),
        b.rollup_message@ == rollup_message_spec(
            b.kickoff_txid@,
            evm_address,
            commit_hash,
            timestamp,
        ),
    ensures
        template_view(a.kickoff_tx) == template_view(b.kickoff_tx),
        a.kickoff_txid@ == b.kickoff_txid@,
        template_view(a.operator_claim_tx) == template_view(b.operator_claim_tx),
        a.rollup_message@ == b.rollup_message@,
{
}

} // verus!
