use bridge_core::chain::{OutPoint, TxData, TxOut};
use bridge_core::constants::{CONNECTOR_TREE_DEPTH, MIN_RELAY_FEE};
use bridge_core::errors::BridgeError;
use bridge_core::watcher::{is_spendable_with_preimage, PreimagePair, TrackedUtxo, Verifier};

fn op(txid_byte: u8, vout: u32) -> OutPoint {
    OutPoint { txid: [txid_byte; 32], vout }
}

fn out(value: u64, spk: &[u8]) -> TxOut {
    TxOut { value, script_pubkey: spk.to_vec() }
}

fn make_watcher() -> Verifier {
    Verifier::new([2u8; 32], vec![0x51])
}

#[test]
fn split_violation_flagged() {
    let v = make_watcher();
    let watched = vec![TrackedUtxo { outpoint: op(9, 0), depth: 0, index: 0 }];
    let tx = TxData {
        txid: [7; 32],
        input_prevouts: vec![op(9, 0)],
        outputs: vec![out(600, &[1]), out(500, &[2])],
    };
    let r = v.watch_connector_tree(&vec![], &watched, &vec![tx]);
    assert!(matches!(r, Err(BridgeError::SplitViolation)));
}

#[test]
fn split_with_single_output_flagged() {
    let v = make_watcher();
    let watched = vec![TrackedUtxo { outpoint: op(9, 0), depth: 0, index: 0 }];
    let tx = TxData { txid: [7; 32], input_prevouts: vec![op(9, 0)], outputs: vec![out(600, &[1])] };
    let r = v.watch_connector_tree(&vec![], &watched, &vec![tx]);
    assert!(matches!(r, Err(BridgeError::SplitViolation)));
}

#[test]
fn split_propagates_children() {
    let v = make_watcher();
    let watched = vec![TrackedUtxo { outpoint: op(9, 0), depth: 3, index: 5 }];
    let tx = TxData {
        txid: [7; 32],
        input_prevouts: vec![op(9, 0)],
        outputs: vec![out(700, &[1]), out(700, &[2])],
    };
    let outcome = v.watch_connector_tree(&vec![], &watched, &vec![tx]).unwrap();
    assert_eq!(outcome.claims.len(), 0);
    assert_eq!(outcome.utxos.len(), 2);
    assert_eq!(outcome.utxos[0].outpoint.txid, [7; 32]);
    assert_eq!(outcome.utxos[0].outpoint.vout, 0);
    assert_eq!((outcome.utxos[0].depth, outcome.utxos[0].index), (4, 10));
    assert_eq!(outcome.utxos[1].outpoint.txid, [7; 32]);
    assert_eq!(outcome.utxos[1].outpoint.vout, 1);
    assert_eq!((outcome.utxos[1].depth, outcome.utxos[1].index), (4, 11));
}

#[test]
fn claim_race_spends_and_consumes_secret() {
    let v = make_watcher();
    let watched = vec![TrackedUtxo { outpoint: op(9, 0), depth: 1, index: 0 }];
    let matching = PreimagePair { preimage: [0xAA; 32], script_pubkey: vec![2, 2] };
    let other = PreimagePair { preimage: [0xBB; 32], script_pubkey: vec![9, 9] };
    let pairs = vec![other, matching];
    let tx = TxData {
        txid: [7; 32],
        input_prevouts: vec![op(9, 0)],
        outputs: vec![out(700, &[1, 1]), out(700, &[2, 2])],
    };
    let outcome = v.watch_connector_tree(&pairs, &watched, &vec![tx]).unwrap();
    // Exactly one claim, of the matched child output, with the matched secret.
    assert_eq!(outcome.claims.len(), 1);
    assert_eq!(outcome.claims[0].outpoint.txid, [7; 32]);
    assert_eq!(outcome.claims[0].outpoint.vout, 1);
    assert_eq!(outcome.claims[0].preimage, [0xAA; 32]);
    assert_eq!(outcome.claims[0].amount, 700);
    // The used secret is gone; the other one stays.
    assert_eq!(outcome.pairs.len(), 1);
    assert_eq!(outcome.pairs[0].preimage, [0xBB; 32]);
    // The claimed child left tracking; the unclaimed one stays.
    assert_eq!(outcome.utxos.len(), 1);
    assert_eq!(outcome.utxos[0].outpoint.vout, 0);
}

#[test]
fn secret_not_reusable_across_blocks() {
    let v = make_watcher();
    let watched = vec![
        TrackedUtxo { outpoint: op(9, 0), depth: 1, index: 0 },
        TrackedUtxo { outpoint: op(8, 0), depth: 1, index: 1 },
    ];
    let pair = PreimagePair { preimage: [0xAA; 32], script_pubkey: vec![2, 2] };
    let tx1 = TxData {
        txid: [7; 32],
        input_prevouts: vec![op(9, 0)],
        outputs: vec![out(700, &[2, 2]), out(700, &[3, 3])],
    };
    let first = v.watch_connector_tree(&vec![pair], &watched, &vec![tx1]).unwrap();
    assert_eq!(first.claims.len(), 1);
    assert_eq!(first.pairs.len(), 0);
    // A later block offering the same script pubkey finds no secret left.
    let tx2 = TxData {
        txid: [6; 32],
        input_prevouts: vec![op(8, 0)],
        outputs: vec![out(700, &[2, 2]), out(700, &[4, 4])],
    };
    let second = v.watch_connector_tree(&first.pairs, &first.utxos, &vec![tx2]).unwrap();
    assert_eq!(second.claims.len(), 0);
}

#[test]
fn unrelated_tx_ignored() {
    let v = make_watcher();
    let watched = vec![TrackedUtxo { outpoint: op(9, 0), depth: 0, index: 0 }];
    let tx = TxData {
        txid: [7; 32],
        input_prevouts: vec![op(1, 0)],
        outputs: vec![out(600, &[1]), out(500, &[2])],
    };
    let outcome = v.watch_connector_tree(&vec![], &watched, &vec![tx]).unwrap();
    assert_eq!(outcome.utxos.len(), 1);
    assert_eq!(outcome.claims.len(), 0);
}

#[test]
fn terminal_leaf_spend_only_untracked() {
    let v = make_watcher();
    let watched = vec![TrackedUtxo { outpoint: op(9, 0), depth: CONNECTOR_TREE_DEPTH, index: 3 }];
    let tx = TxData {
        txid: [7; 32],
        input_prevouts: vec![op(9, 0)],
        // Unequal outputs: still no violation, a terminal spend is no split.
        outputs: vec![out(600, &[1]), out(500, &[2])],
    };
    let outcome = v.watch_connector_tree(&vec![], &watched, &vec![tx]).unwrap();
    assert_eq!(outcome.utxos.len(), 0);
    assert_eq!(outcome.claims.len(), 0);
}

#[test]
fn tx_without_inputs_fails_block() {
    let v = make_watcher();
    let tx = TxData { txid: [7; 32], input_prevouts: vec![], outputs: vec![] };
    let r = v.watch_connector_tree(&vec![], &vec![], &vec![tx]);
    assert!(matches!(r, Err(BridgeError::TxInputNotFound)));
}

#[test]
fn did_connector_tree_process_start_finds_spend() {
    let v = make_watcher();
    let txs = vec![
        TxData { txid: [7; 32], input_prevouts: vec![op(1, 0), op(2, 5)], outputs: vec![] },
        TxData { txid: [6; 32], input_prevouts: vec![op(3, 1)], outputs: vec![] },
    ];
    assert!(v.did_connector_tree_process_start(op(2, 5), &txs));
    assert!(v.did_connector_tree_process_start(op(3, 1), &txs));
    assert!(!v.did_connector_tree_process_start(op(2, 4), &txs));
    assert!(!v.did_connector_tree_process_start(op(4, 0), &txs));
}

#[test]
fn is_spendable_with_preimage_compares_scripts() {
    let pair = PreimagePair { preimage: [1; 32], script_pubkey: vec![5, 6, 7] };
    assert!(is_spendable_with_preimage(&pair, &out(100, &[5, 6, 7])));
    assert!(!is_spendable_with_preimage(&pair, &out(100, &[5, 6])));
}

#[test]
fn spend_connector_tree_utxo_template() {
    let v = Verifier::new([2u8; 32], vec![0x51, 0x52]);
    let t = v.spend_connector_tree_utxo(op(9, 1), 700);
    assert_eq!(t.inputs.len(), 1);
    assert_eq!(t.inputs[0].previous_output.txid, [9; 32]);
    assert_eq!(t.inputs[0].previous_output.vout, 1);
    assert_eq!(t.inputs[0].sequence, 1);
    assert_eq!(t.outputs.len(), 1);
    assert_eq!(t.outputs[0].value, 700 - MIN_RELAY_FEE);
    assert_eq!(t.outputs[0].script_pubkey, vec![0x51, 0x52]);

    let l = v.spend_connector_tree_leaf_utxo(op(9, 1), 700);
    assert_eq!(l.outputs[0].value, t.outputs[0].value);
    assert_eq!(l.inputs[0].sequence, t.inputs[0].sequence);
}
