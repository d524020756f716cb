//! Plain-value models of the chain data the bridge core reads and builds:
//! outpoints, outputs, observed transactions, and unsigned transaction
//! templates. The embedding layer converts between these and the transaction
//! library's own types.
use vstd::prelude::*;

use bitcoin::hashes::Hash as _;

use crate::hash::{data_eq, Data};

verus! {

/// The view of an outpoint: funding txid bytes and output position.
pub type OutPointV = (Seq<u8>, u32);

/// The view of a transaction output: value in satoshis and script pubkey
/// bytes.
pub type TxOutV = (u64, Seq<u8>);

/// The view of an observed transaction: its id, the outpoints its inputs
/// spend, and its outputs.
pub type TxV = (Seq<u8>, Seq<OutPointV>, Seq<TxOutV>);

/// The view of an unsigned transaction template: inputs as (outpoint,
/// sequence) pairs, and outputs.
pub type TxTemplateV = (Seq<(OutPointV, u32)>, Seq<TxOutV>);

/// A reference to a transaction output: the funding transaction's id and the
/// output position.
#[derive(Clone, Copy)]
pub struct OutPoint {
    pub txid: Data,
    pub vout: u32,
}

/// A transaction output: its value in satoshis and its script pubkey.
pub struct TxOut {
    pub value: u64,
    pub script_pubkey: Vec<u8>,
}

/// What the watcher reads of one confirmed transaction: its id, the
/// outpoints its inputs spend, and its outputs.
pub struct TxData {
    pub txid: Data,
    pub input_prevouts: Vec<OutPoint>,
    pub outputs: Vec<TxOut>,
}

/// One input of an unsigned transaction template.
pub struct TxIn {
    pub previous_output: OutPoint,
    pub sequence: u32,
}

/// An unsigned transaction template, fully determined by its inputs and
/// outputs; version and lock time are fixed by the protocol.
pub struct TxTemplate {
    pub inputs: Vec<TxIn>,
    pub outputs: Vec<TxOut>,
}

pub open spec fn op_view(o: OutPoint) -> OutPointV {
    (o.txid@, o.vout)
}

pub open spec fn txout_view(o: TxOut) -> TxOutV {
    (o.value, o.script_pubkey@)
}

pub open spec fn txin_view(i: TxIn) -> (OutPointV, u32) {
    (op_view(i.previous_output), i.sequence)
}

pub open spec fn ops_view(s: Seq<OutPoint>) -> Seq<OutPointV> {
    s.map_values(|o: OutPoint| op_view(o))
}

pub open spec fn txouts_view(s: Seq<TxOut>) -> Seq<TxOutV> {
    s.map_values(|o: TxOut| txout_view(o))
}

pub open spec fn tx_view(t: TxData) -> TxV {
    (t.txid@, ops_view(t.input_prevouts@), txouts_view(t.outputs@))
}

pub open spec fn txs_view(s: Seq<TxData>) -> Seq<TxV> {
    s.map_values(|t: TxData| tx_view(t))
}

pub open spec fn template_view(t: TxTemplate) -> TxTemplateV {
    (t.inputs@.map_values(|i: TxIn| txin_view(i)), txouts_view(t.outputs@))
}

/// Whether two outpoints refer to the same output.
pub fn outpoint_eq(a: &OutPoint, b: &OutPoint) -> (r: bool)
    ensures
        r == (op_view(*a) == op_view(*b)),
{
    let r = a.vout == b.vout && data_eq(&a.txid, &b.txid);
    proof {
        if a.vout == b.vout && a.txid@ == b.txid@ {
            assert(op_view(*a) == op_view(*b));
        }
    }
    r
}

/// Whether two byte strings hold the same bytes.
pub fn bytes_eq(a: &Vec<u8>, b: &Vec<u8>) -> (r: bool)
    ensures
        r == (a@ == b@),
{
    let r = *a == *b;
    proof {
        if r {
            assert(a@ =~= b@);
        }
    }
    r
}

/// A copy of a byte string.
pub fn clone_bytes(v: &Vec<u8>) -> (r: Vec<u8>)
    ensures
        r@ == v@,
{
    let r = v.clone();
    proof {
        assert(r@ =~= v@);
    }
    r
}

/// The id of the transaction a template stands for. The encoding is not
/// spelled out: it is pinned to the outside implementation by `compute_txid`
/// below, and contracts speak of it only through this name.
pub uninterp spec fn txid_of(t: TxTemplateV) -> Seq<u8>;

/// Relies on `bitcoin::Transaction::txid`: the id is the double SHA-256 of
/// the consensus encoding of version, inputs, outputs and lock time, so it is
/// a function of the template alone, the protocol fixing version 2, lock time
/// zero, and empty script sigs.
#[verifier::external_body]
pub fn compute_txid(tx: &TxTemplate) -> (r: Data)
    ensures
        r@ == txid_of(template_view(*tx)),
{
    let input = tx.inputs.iter().map(|i| bitcoin::TxIn {
        previous_output: bitcoin::OutPoint::new(
            bitcoin::Txid::from_byte_array(i.previous_output.txid), i.previous_output.vout),
        script_sig: bitcoin::ScriptBuf::new(),
        sequence: bitcoin::Sequence(i.sequence),
        witness: bitcoin::Witness::new(),
    }).collect();
    let output = tx.outputs.iter().map(|o| bitcoin::TxOut {
        value: bitcoin::Amount::from_sat(o.value),
        script_pubkey: bitcoin::ScriptBuf::from_bytes(o.script_pubkey.clone()),
    }).collect();
    let version = bitcoin::transaction::Version::TWO;
    let lock_time = bitcoin::absolute::LockTime::ZERO;
    bitcoin::Transaction { version, lock_time, input, output }.txid().to_byte_array()
}

} // verus!
