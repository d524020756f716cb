use bitcoin::blockdata::script::Builder;
use bitcoin::sighash::{Prevouts, SighashCache, TapSighashType};
use bitcoin::taproot::{LeafVersion, TapLeafHash, TaprootBuilder};
use bridge_core::chain::OutPoint;
use bridge_core::constants::{
    BRIDGE_AMOUNT_SATS, CONFIRMATION_BLOCK_COUNT, DUST_VALUE, MIN_RELAY_FEE,
};
use bridge_core::errors::BridgeError;
use bridge_core::presign::{check_deposit, DepositUtxoInfo};
use bridge_core::watcher::Verifier;

fn verifier_with_tree() -> Verifier {
    let mut v = Verifier::new([2u8; 32], vec![0x51]);
    v.set_connector_tree_utxos(vec![vec![
        OutPoint { txid: [5; 32], vout: 0 },
        OutPoint { txid: [5; 32], vout: 1 },
        OutPoint { txid: [6; 32], vout: 0 },
    ]]);
    v
}

fn deposit_spk() -> Vec<u8> {
    vec![0x20, 0x21, 0x22]
}

fn good_info() -> DepositUtxoInfo {
    DepositUtxoInfo {
        value: BRIDGE_AMOUNT_SATS,
        script_pubkey: deposit_spk(),
        confirmations: CONFIRMATION_BLOCK_COUNT,
        spent: false,
        confirmation_time: Some(1_700_000_000),
    }
}

fn run_new_deposit(v: &Verifier, info: &DepositUtxoInfo) -> Result<bridge_core::presign::DepositTemplates, BridgeError> {
    v.new_deposit(
        OutPoint { txid: [9; 32], vout: 0 },
        2,
        [0xCC; 32],
        [0xEE; 20],
        info,
        &deposit_spk(),
        &vec![0x30, 0x31],
        &vec![0x40, 0x41],
    )
}

#[test]
fn presign_determinism() {
    let v = verifier_with_tree();
    let a = run_new_deposit(&v, &good_info()).unwrap();
    let b = run_new_deposit(&v, &good_info()).unwrap();
    assert_eq!(a.kickoff_txid, b.kickoff_txid);
    assert_eq!(a.rollup_message, b.rollup_message);
    assert_eq!(a.kickoff_tx.inputs.len(), b.kickoff_tx.inputs.len());
    assert_eq!(a.kickoff_tx.outputs[0].value, b.kickoff_tx.outputs[0].value);
    assert_eq!(a.kickoff_tx.outputs[0].script_pubkey, b.kickoff_tx.outputs[0].script_pubkey);
    assert_eq!(
        a.operator_claim_tx.outputs[0].value,
        b.operator_claim_tx.outputs[0].value
    );
    assert_eq!(a.confirmation_timestamp, b.confirmation_timestamp);
}

#[test]
fn four_verifiers_build_identical_templates() {
    // Each committee member presigns independently; the unsigned artifacts
    // they commit to must agree byte for byte.
    let txids: Vec<[u8; 32]> = (0u8..4)
        .map(|i| {
            let mut v = Verifier::new([i; 32], vec![0x50 + i]);
            v.set_connector_tree_utxos(vec![vec![
                OutPoint { txid: [5; 32], vout: 0 },
                OutPoint { txid: [5; 32], vout: 1 },
                OutPoint { txid: [6; 32], vout: 0 },
            ]]);
            run_new_deposit(&v, &good_info()).unwrap().kickoff_txid
        })
        .collect();
    assert_eq!(txids[0], txids[1]);
    assert_eq!(txids[0], txids[2]);
    assert_eq!(txids[0], txids[3]);
}

#[test]
fn kickoff_txid_matches_reference_encoding() {
    let v = verifier_with_tree();
    let t = run_new_deposit(&v, &good_info()).unwrap();
    let reference = bitcoin::Transaction {
        version: bitcoin::transaction::Version::TWO,
        lock_time: bitcoin::absolute::LockTime::ZERO,
        input: vec![bitcoin::TxIn {
            previous_output: bitcoin::OutPoint::new(
                <bitcoin::Txid as bitcoin::hashes::Hash>::from_byte_array([9; 32]),
                0,
            ),
            script_sig: bitcoin::ScriptBuf::new(),
            sequence: bitcoin::Sequence(0xFFFFFFFF),
            witness: bitcoin::Witness::new(),
        }],
        output: vec![bitcoin::TxOut {
            value: bitcoin::Amount::from_sat(BRIDGE_AMOUNT_SATS - MIN_RELAY_FEE),
            script_pubkey: bitcoin::ScriptBuf::from_bytes(vec![0x30, 0x31]),
        }],
    };
    assert_eq!(t.kickoff_txid, <bitcoin::Txid as bitcoin::hashes::Hash>::to_byte_array(reference.txid()));
}

#[test]
fn template_fields_exact() {
    let v = verifier_with_tree();
    let t = run_new_deposit(&v, &good_info()).unwrap();
    assert_eq!(t.kickoff_tx.inputs.len(), 1);
    assert_eq!(t.kickoff_tx.inputs[0].previous_output.txid, [9; 32]);
    assert_eq!(t.kickoff_tx.inputs[0].sequence, 0xFFFFFFFF);
    assert_eq!(t.kickoff_tx.outputs.len(), 1);
    assert_eq!(t.kickoff_tx.outputs[0].value, BRIDGE_AMOUNT_SATS - MIN_RELAY_FEE);
    assert_eq!(t.kickoff_tx.outputs[0].script_pubkey, vec![0x30, 0x31]);

    assert_eq!(t.operator_claim_tx.inputs.len(), 2);
    assert_eq!(t.operator_claim_tx.inputs[0].previous_output.txid, t.kickoff_txid);
    assert_eq!(t.operator_claim_tx.inputs[0].previous_output.vout, 0);
    assert_eq!(t.operator_claim_tx.inputs[0].sequence, 0xFFFFFFFF);
    // The connector leaf chosen by index 2 of the last row, under the
    // relative timelock discipline.
    assert_eq!(t.operator_claim_tx.inputs[1].previous_output.txid, [6; 32]);
    assert_eq!(t.operator_claim_tx.inputs[1].previous_output.vout, 0);
    assert_eq!(t.operator_claim_tx.inputs[1].sequence, 1);
    assert_eq!(t.operator_claim_tx.outputs.len(), 1);
    assert_eq!(
        t.operator_claim_tx.outputs[0].value,
        BRIDGE_AMOUNT_SATS - MIN_RELAY_FEE + DUST_VALUE - MIN_RELAY_FEE
    );
    assert_eq!(t.operator_claim_tx.outputs[0].script_pubkey, vec![0x40, 0x41]);
}

#[test]
fn rollup_message_layout() {
    let v = verifier_with_tree();
    let t = run_new_deposit(&v, &good_info()).unwrap();
    let mut expected = Vec::new();
    expected.extend_from_slice(&t.kickoff_txid);
    expected.extend_from_slice(&[0xEE; 20]);
    expected.extend_from_slice(&[0xCC; 32]);
    expected.extend_from_slice(&1_700_000_000u32.to_be_bytes());
    assert_eq!(t.rollup_message, expected);
}

#[test]
fn presign_rejects_spent_utxo() {
    let v = verifier_with_tree();
    let mut info = good_info();
    info.spent = true;
    assert!(matches!(run_new_deposit(&v, &info), Err(BridgeError::UTXOSpent)));
}

#[test]
fn presign_rejects_wrong_value() {
    let v = verifier_with_tree();
    let mut info = good_info();
    info.value = BRIDGE_AMOUNT_SATS - 1;
    assert!(matches!(run_new_deposit(&v, &info), Err(BridgeError::InvalidDepositUTXO)));
}

#[test]
fn presign_rejects_wrong_script() {
    let v = verifier_with_tree();
    let mut info = good_info();
    info.script_pubkey = vec![0x99];
    assert!(matches!(run_new_deposit(&v, &info), Err(BridgeError::InvalidDepositUTXO)));
}

#[test]
fn presign_rejects_shallow_confirmation() {
    let v = verifier_with_tree();
    let mut info = good_info();
    info.confirmations = CONFIRMATION_BLOCK_COUNT - 1;
    assert!(matches!(run_new_deposit(&v, &info), Err(BridgeError::DepositNotFinalized)));
}

#[test]
fn presign_rejects_missing_confirmation_data() {
    let v = verifier_with_tree();
    let mut info = good_info();
    info.confirmation_time = None;
    assert!(matches!(run_new_deposit(&v, &info), Err(BridgeError::NoConfirmationData)));
}

#[test]
fn check_deposit_accepts_good_utxo() {
    assert_eq!(check_deposit(&good_info(), &deposit_spk()), Ok(1_700_000_000));
}

#[test]
fn committee_signatures_validate_against_shared_kickoff_template() {
    // Four committee members, each with its own key, derive the same
    // multisig script and address, presign independently, and sign the
    // kickoff spend. Every signature must validate against the one taproot
    // sighash of the shared template.
    let secp = bitcoin::secp256k1::Secp256k1::new();
    let keypairs: Vec<bitcoin::key::Keypair> = (1u8..=4)
        .map(|i| bitcoin::key::Keypair::from_seckey_slice(&secp, &[i; 32]).unwrap())
        .collect();
    let pubkeys: Vec<bitcoin::key::XOnlyPublicKey> =
        keypairs.iter().map(|k| bitcoin::key::XOnlyPublicKey::from_keypair(k).0).collect();

    // The n-of-n script without hash: every committee key must sign.
    let mut b = Builder::new();
    for (i, pk) in pubkeys.iter().enumerate() {
        b = b.push_x_only_key(pk);
        if i + 1 < pubkeys.len() {
            b = b.push_opcode(bitcoin::blockdata::opcodes::all::OP_CHECKSIGVERIFY);
        } else {
            b = b.push_opcode(bitcoin::blockdata::opcodes::all::OP_CHECKSIG);
        }
    }
    let script_n_of_n = b.into_script();
    let spend_info = TaprootBuilder::new()
        .add_leaf(0, script_n_of_n.clone())
        .unwrap()
        .finalize(&secp, pubkeys[0])
        .unwrap();
    let multisig_address = bitcoin::Address::p2tr(
        &secp,
        pubkeys[0],
        spend_info.merkle_root(),
        bitcoin::Network::Regtest,
    );
    let multisig_spk = multisig_address.script_pubkey().into_bytes();

    // Each member presigns over the same inputs.
    let templates: Vec<bridge_core::presign::DepositTemplates> = (0..4)
        .map(|_| {
            let v = verifier_with_tree();
            v.new_deposit(
                OutPoint { txid: [9; 32], vout: 0 },
                2,
                [0xCC; 32],
                [0xEE; 20],
                &good_info(),
                &deposit_spk(),
                &multisig_spk,
                &vec![0x40, 0x41],
            )
            .unwrap()
        })
        .collect();
    for t in &templates[1..] {
        assert_eq!(t.kickoff_txid, templates[0].kickoff_txid);
    }

    // Realize the shared kickoff template and compute its one script-spend
    // sighash over the deposit prevout.
    let t = &templates[0];
    let mut kickoff_tx = bitcoin::Transaction {
        version: bitcoin::transaction::Version::TWO,
        lock_time: bitcoin::absolute::LockTime::ZERO,
        input: vec![bitcoin::TxIn {
            previous_output: bitcoin::OutPoint::new(
                <bitcoin::Txid as bitcoin::hashes::Hash>::from_byte_array(
                    t.kickoff_tx.inputs[0].previous_output.txid,
                ),
                t.kickoff_tx.inputs[0].previous_output.vout,
            ),
            script_sig: bitcoin::ScriptBuf::new(),
            sequence: bitcoin::Sequence(t.kickoff_tx.inputs[0].sequence),
            witness: bitcoin::Witness::new(),
        }],
        output: vec![bitcoin::TxOut {
            value: bitcoin::Amount::from_sat(t.kickoff_tx.outputs[0].value),
            script_pubkey: bitcoin::ScriptBuf::from_bytes(
                t.kickoff_tx.outputs[0].script_pubkey.clone(),
            ),
        }],
    };
    let prevout = bitcoin::TxOut {
        value: bitcoin::Amount::from_sat(BRIDGE_AMOUNT_SATS),
        script_pubkey: bitcoin::ScriptBuf::from_bytes(deposit_spk()),
    };
    let leaf_hash = TapLeafHash::from_script(&script_n_of_n, LeafVersion::TapScript);
    let sighash = SighashCache::new(&mut kickoff_tx)
        .taproot_script_spend_signature_hash(
            0,
            &Prevouts::All(&[prevout]),
            leaf_hash,
            TapSighashType::Default,
        )
        .unwrap();
    let msg = bitcoin::secp256k1::Message::from_digest(
        <bitcoin::sighash::TapSighash as bitcoin::hashes::Hash>::to_byte_array(sighash),
    );

    // Every member's signature over the shared sighash validates.
    for (kp, pk) in keypairs.iter().zip(pubkeys.iter()) {
        let sig = secp.sign_schnorr_no_aux_rand(&msg, kp);
        assert!(secp.verify_schnorr(&sig, &msg, pk).is_ok());
    }
}
