//! Verifier-side state: the committee member that counter-signs deposits and
//! watches the connector tree, checking binary splits and racing the operator
//! for preimage-spendable outputs.
//!
//! Block processing is a pure transition: it takes the tracked state and the
//! observed transactions, and returns the new state together with the claim
//! requests to broadcast. A failed block leaves the caller's state untouched
//! and is safely retryable.
use vstd::prelude::*;

use crate::chain::{
    clone_bytes, op_view, outpoint_eq, bytes_eq, ops_view, template_view, tx_view, txs_view,
    OutPoint, OutPointV, TxData, TxIn, TxOut, TxTemplate, TxTemplateV,
};
use crate::constants::{CONNECTOR_TREE_DEPTH, CONNECTOR_TREE_OPERATOR_TAKES_AFTER, MIN_RELAY_FEE};
use crate::errors::BridgeError;
use crate::hash::Data;

verus! {

/// The view of a held secret: preimage bytes and the script pubkey of the
/// hash-locked connector output it can spend.
pub type PairV = (Seq<u8>, Seq<u8>);

/// The view of a tracked connector-tree UTXO: its outpoint and its (depth,
/// index) position in the tree.
pub type UtxoV = (OutPointV, u32, u32);

/// The view of a claim request: the outpoint to spend, the preimage that
/// unlocks it, and its value.
pub type ClaimV = (OutPointV, Seq<u8>, u64);

/// A secret the verifier is willing to use, paired with the script pubkey of
/// the connector-tree output that secret unlocks (derived once, outside this
/// core, from the operator key and the secret's hash).
pub struct PreimagePair {
    pub preimage: Data,
    pub script_pubkey: Vec<u8>,
}

/// A live connector-tree UTXO being tracked, at position (depth, index).
#[derive(Clone, Copy)]
pub struct TrackedUtxo {
    pub outpoint: OutPoint,
    pub depth: u32,
    pub index: u32,
}

/// A claim the watcher wants broadcast: spend `outpoint`, worth `amount`
/// satoshis, with `preimage`.
pub struct ClaimRequest {
    pub outpoint: OutPoint,
    pub preimage: Data,
    pub amount: u64,
}

pub open spec fn pair_view(p: PreimagePair) -> PairV {
    (p.preimage@, p.script_pubkey@)
}

pub open spec fn utxo_view(u: TrackedUtxo) -> UtxoV {
    (op_view(u.outpoint), u.depth, u.index)
}

pub open spec fn claim_view(c: ClaimRequest) -> ClaimV {
    (op_view(c.outpoint), c.preimage@, c.amount)
}

pub open spec fn pairs_view(s: Seq<PreimagePair>) -> Seq<PairV> {
    s.map_values(|p: PreimagePair| pair_view(p))
}

pub open spec fn utxos_view(s: Seq<TrackedUtxo>) -> Seq<UtxoV> {
    s.map_values(|u: TrackedUtxo| utxo_view(u))
}

pub open spec fn claims_view(s: Seq<ClaimRequest>) -> Seq<ClaimV> {
    s.map_values(|c: ClaimRequest| claim_view(c))
}

/// The position of the first tracked entry spending `op`, if any.
pub open spec fn lookup_op(utxos: Seq<UtxoV>, op: OutPointV) -> Option<(u32, u32)>
    decreases utxos.len(),
{
    if utxos.len() == 0 {
        None
    } else if utxos[0].0 == op {
        Some((utxos[0].1, utxos[0].2))
    } else {
        lookup_op(utxos.drop_first(), op)
    }
}

/// The tracked entries with every entry at `op` removed, order kept.
pub open spec fn remove_op(utxos: Seq<UtxoV>, op: OutPointV) -> Seq<UtxoV>
    decreases utxos.len(),
{
    if utxos.len() == 0 {
        Seq::empty()
    } else if utxos[0].0 == op {
        remove_op(utxos.drop_first(), op)
    } else {
        seq![utxos[0]] + remove_op(utxos.drop_first(), op)
    }
}

/// One pass of the held secrets over one new output: every secret whose
/// script pubkey equals the output's is turned into a claim of that output
/// and dropped from the held set (a secret is single use); the others are
/// kept in order.
pub open spec fn pairs_scan(pairs: Seq<PairV>, op: OutPointV, spk: Seq<u8>, amount: u64) -> (
    Seq<PairV>,
    Seq<ClaimV>,
)
    decreases pairs.len(),
{
    if pairs.len() == 0 {
        (Seq::empty(), Seq::empty())
    } else {
        let rest = pairs_scan(pairs.drop_first(), op, spk, amount);
        if pairs[0].1 == spk {
            (rest.0, seq![(op, pairs[0].0, amount)] + rest.1)
        } else {
            (seq![pairs[0]] + rest.0, rest.1)
        }
    }
}

/// The scan of all outputs of a splitting transaction from position `j` on:
/// each output is tested against the held secrets; a claimed output is also
/// dropped from tracking.
pub open spec fn outputs_scan(
    pairs: Seq<PairV>,
    utxos: Seq<UtxoV>,
    txid: Seq<u8>,
    outs: Seq<(u64, Seq<u8>)>,
    j: int,
    amount: u64,
) -> (Seq<PairV>, Seq<UtxoV>, Seq<ClaimV>)
    decreases outs.len() - j,
{
    if j < 0 || j >= outs.len() {
        (pairs, utxos, Seq::empty())
    } else {
        let op = (txid, j as u32);
        let scanned = pairs_scan(pairs, op, outs[j].1, amount);
        let kept_utxos = if scanned.1.len() > 0 {
            remove_op(utxos, op)
        } else {
            utxos
        };
        let rest = outputs_scan(scanned.0, kept_utxos, txid, outs, j + 1, amount);
        (rest.0, rest.1, scanned.1 + rest.2)
    }
}

/// The two tracked children a split at (depth, index) creates: the splitting
/// transaction's first two outputs, at (depth + 1, 2 * index) and
/// (depth + 1, 2 * index + 1).
pub open spec fn child_entries(txid: Seq<u8>, depth: u32, index: u32) -> Seq<UtxoV>
    recommends
        depth < CONNECTOR_TREE_DEPTH,
        index < 0x80000000u32,
{
    seq![
        ((txid, 0u32), (depth + 1) as u32, (2 * index) as u32),
        ((txid, 1u32), (depth + 1) as u32, (2 * index + 1) as u32),
    ]
}

/// What one observed transaction does to the watcher state.
///
/// A transaction whose first input does not spend a tracked UTXO is ignored.
/// One that does spend a tracked node must split it into two child outputs of
/// equal value; an unequal or missing pair of outputs is a protocol violation
/// and fails the block. A valid split replaces the spent entry by the two
/// children and races the held secrets over the new outputs. A spend of a
/// tracked node already at the terminal depth only ends its tracking.
pub open spec fn watch_step(pairs: Seq<PairV>, utxos: Seq<UtxoV>, tx: crate::chain::TxV) -> Result<
    (Seq<PairV>, Seq<UtxoV>, Seq<ClaimV>),
    BridgeError,
> {
    if tx.1.len() == 0 {
        Err(BridgeError::TxInputNotFound)
    } else {
        match lookup_op(utxos, tx.1[0]) {
            None => Ok((pairs, utxos, Seq::empty())),
            Some((depth, index)) => {
                let utxos1 = remove_op(utxos, tx.1[0]);
                if depth >= CONNECTOR_TREE_DEPTH {
                    Ok((pairs, utxos1, Seq::empty()))
                } else if tx.2.len() < 2 || tx.2[0].0 != tx.2[1].0 {
                    Err(BridgeError::SplitViolation)
                } else {
                    let amount = tx.2[0].0;
                    let utxos2 = utxos1 + child_entries(tx.0, depth, index);
                    Ok(outputs_scan(pairs, utxos2, tx.0, tx.2, 0, amount))
                }
            },
        }
    }
}

/// What one block's transactions, in order, do to the watcher state; the
/// claims of all transactions are emitted in order. The first violating
/// transaction fails the whole block.
pub open spec fn watch_fold(pairs: Seq<PairV>, utxos: Seq<UtxoV>, txs: Seq<crate::chain::TxV>) -> Result<
    (Seq<PairV>, Seq<UtxoV>, Seq<ClaimV>),
    BridgeError,
>
    decreases txs.len(),
{
    if txs.len() == 0 {
        Ok((pairs, utxos, Seq::empty()))
    } else {
        match watch_step(pairs, utxos, txs[0]) {
            Err(e) => Err(e),
            Ok(s) => match watch_fold(s.0, s.1, txs.drop_first()) {
                Err(e) => Err(e),
                Ok(s2) => Ok((s2.0, s2.1, s.2 + s2.2)),
            },
        }
    }
}

/// A tracked position lies inside the tree: at most the terminal depth, and
/// with an index below the node count of its level.
pub open spec fn utxo_wf(u: UtxoV) -> bool {
    u.1 <= CONNECTOR_TREE_DEPTH && u.2 < vstd::arithmetic::power2::pow2(u.1 as nat)
}

/// Every tracked position lies inside the tree, so child positions cannot
/// overflow.
pub open spec fn utxos_wf(utxos: Seq<UtxoV>) -> bool {
    forall|k: int| 0 <= k < utxos.len() ==> utxo_wf(#[trigger] utxos[k])
}

/// Whether an output is spendable with a held secret: its script pubkey is
/// the hash-locked script pubkey paired with that secret.
pub fn is_spendable_with_preimage(pair: &PreimagePair, tx_out: &TxOut) -> (r: bool)
    ensures
        r == (pair.script_pubkey@ == tx_out.script_pubkey@),
{
    bytes_eq(&pair.script_pubkey, &tx_out.script_pubkey)
}

/// The first tracked entry at `op`, if any.
fn lookup_tracked(utxos: &Vec<TrackedUtxo>, op: &OutPoint) -> (r: Option<(u32, u32)>)
    ensures
        r == lookup_op(utxos_view(utxos@), op_view(*op)),
{
    let ghost uv = utxos_view(utxos@);
    proof {
        assert(uv.skip(0) =~= uv);
    }
    let mut i: usize = 0;
    while i < utxos.len()
        invariant
            i <= utxos.len(),
            uv == utxos_view(utxos@),
            uv.len() == utxos@.len(),
            lookup_op(uv, op_view(*op)) == lookup_op(uv.skip(i as int), op_view(*op)),
        decreases utxos.len() - i,
    {
        proof {
            assert(uv.skip(i as int)[0] == uv[i as int]);
            assert(uv.skip(i as int).drop_first() =~= uv.skip(i as int + 1));
        }
        if outpoint_eq(&utxos[i].outpoint, op) {
            return Some((utxos[i].depth, utxos[i].index));
        }
        i = i + 1;
    }
    proof {
        assert(uv.skip(utxos@.len() as int) =~= Seq::<UtxoV>::empty());
    }
    None
}

/// The tracked entries with every entry at `op` dropped, order kept.
fn remove_tracked(utxos: &Vec<TrackedUtxo>, op: &OutPoint) -> (r: Vec<TrackedUtxo>)
    ensures
        utxos_view(r@) == remove_op(utxos_view(utxos@), op_view(*op)),
{
    let ghost uv = utxos_view(utxos@);
    proof {
        assert(uv.skip(0) =~= uv);
        assert(Seq::<UtxoV>::empty() + remove_op(uv, op_view(*op)) =~= remove_op(
            uv,
            op_view(*op),
        ));
        assert(utxos_view(Seq::<TrackedUtxo>::empty()) =~= Seq::<UtxoV>::empty());
    }
    let mut kept: Vec<TrackedUtxo> = Vec::new();
    let mut i: usize = 0;
    while i < utxos.len()
        invariant
            i <= utxos.len(),
            uv == utxos_view(utxos@),
            uv.len() == utxos@.len(),
            remove_op(uv, op_view(*op)) == utxos_view(kept@) + remove_op(
                uv.skip(i as int),
                op_view(*op),
            ),
        decreases utxos.len() - i,
    {
        proof {
            assert(uv.skip(i as int)[0] == uv[i as int]);
            assert(uv.skip(i as int).drop_first() =~= uv.skip(i as int + 1));
        }
        if !outpoint_eq(&utxos[i].outpoint, op) {
            let u = TrackedUtxo {
                outpoint: utxos[i].outpoint,
                depth: utxos[i].depth,
                index: utxos[i].index,
            };
            proof {
                assert(utxos_view(kept@.push(u)) =~= utxos_view(kept@).push(utxo_view(u)));
                assert(utxos_view(kept@).push(utxo_view(u)) + remove_op(
                    uv.skip(i as int + 1),
                    op_view(*op),
                ) =~= utxos_view(kept@) + (seq![uv[i as int]] + remove_op(
                    uv.skip(i as int + 1),
                    op_view(*op),
                )));
            }
            kept.push(u);
        }
        i = i + 1;
    }
    proof {
        assert(uv.skip(utxos@.len() as int) =~= Seq::<UtxoV>::empty());
        assert(utxos_view(kept@) + Seq::<UtxoV>::empty() =~= utxos_view(kept@));
    }
    kept
}

/// Whether some input of some transaction in the list spends `utxo`.
pub open spec fn some_input_spends(txs: Seq<crate::chain::TxV>, op: OutPointV) -> bool {
    exists|i: int, j: int|
        0 <= i < txs.len() && 0 <= j < txs[i].1.len() && txs[i].1[j] == op
}

/// Law: the watcher never silently accepts a bad split. A transaction that
/// spends a tracked connector-tree node above the terminal depth and does not
/// carry two first outputs of equal value makes the block's processing fail
/// with `SplitViolation` instead of returning a new state.
pub proof fn lemma_split_violation_flagged(
    pairs: Seq<PairV>,
    utxos: Seq<UtxoV>,
    tx: crate::chain::TxV,
    depth: u32,
    index: u32,
)
    requires
        tx.1.len() > 0,
        lookup_op(utxos, tx.1[0]) == Some((depth, index)),
        depth < CONNECTOR_TREE_DEPTH,
        tx.2.len() < 2 || tx.2[0].0 != tx.2[1].0,
    ensures
        watch_step(pairs, utxos, tx) == Err::<(Seq<PairV>, Seq<UtxoV>, Seq<ClaimV>), _>(
            BridgeError::SplitViolation,
        ),
{
}

/// A scan over an output no held secret matches leaves the held set as it
/// was and claims nothing.
pub proof fn lemma_scan_no_match(pairs: Seq<PairV>, op: OutPointV, spk: Seq<u8>, amount: u64)
    requires
        forall|k: int| 0 <= k < pairs.len() ==> (#[trigger] pairs[k]).1 != spk,
    ensures
        pairs_scan(pairs, op, spk, amount).0 == pairs,
        pairs_scan(pairs, op, spk, amount).1 == Seq::<ClaimV>::empty(),
    decreases pairs.len(),
{
    if pairs.len() > 0 {
        assert(forall|k: int|
            0 <= k < pairs.drop_first().len() ==> pairs.drop_first()[k] == pairs[k + 1]);
        lemma_scan_no_match(pairs.drop_first(), op, spk, amount);
        assert(seq![pairs[0]] + pairs.drop_first() =~= pairs);
    }
}

/// Law: claim race correctness over one new output. If exactly one held
/// secret matches the output's script pubkey, the scan yields exactly one
/// claim — spending that output with that secret, at the output's value —
/// and that secret leaves the held set while every other secret stays.
pub proof fn lemma_claim_race(
    pairs: Seq<PairV>,
    op: OutPointV,
    spk: Seq<u8>,
    amount: u64,
    w: int,
)
    requires
        0 <= w < pairs.len(),
        pairs[w].1 == spk,
        forall|k: int| 0 <= k < pairs.len() && k != w ==> (#[trigger] pairs[k]).1 != spk,
    ensures
        pairs_scan(pairs, op, spk, amount).1 == seq![(op, pairs[w].0, amount)],
        pairs_scan(pairs, op, spk, amount).0 == pairs.remove(w),
    decreases pairs.len(),
{
    let d = pairs.drop_first();
    assert(forall|k: int| 0 <= k < d.len() ==> d[k] == pairs[k + 1]);
    if w == 0 {
        lemma_scan_no_match(d, op, spk, amount);
        assert(seq![(op, pairs[0].0, amount)] + Seq::<ClaimV>::empty() =~= seq![
            (op, pairs[0].0, amount),
        ]);
        assert(pairs.remove(0) =~= d);
    } else {
        lemma_claim_race(d, op, spk, amount, w - 1);
        assert(pairs[0].1 != spk);
        assert(seq![pairs[0]] + d.remove(w - 1) =~= pairs.remove(w));
    }
}

/// A scan over outputs none of the held secrets match changes nothing and
/// claims nothing.
proof fn lemma_outputs_scan_no_match(
    pairs: Seq<PairV>,
    utxos: Seq<UtxoV>,
    txid: Seq<u8>,
    outs: Seq<(u64, Seq<u8>)>,
    j: int,
    amount: u64,
)
    requires
        forall|a: int, b: int|
            0 <= a < pairs.len() && j <= b < outs.len() ==> (#[trigger] pairs[a]).1 != (
            #[trigger] outs[b]).1,
    ensures
        outputs_scan(pairs, utxos, txid, outs, j, amount) == (
            pairs,
            utxos,
            Seq::<ClaimV>::empty(),
        ),
    decreases outs.len() - j,
{
    if 0 <= j < outs.len() {
        lemma_scan_no_match(pairs, (txid, j as u32), outs[j].1, amount);
        lemma_outputs_scan_no_match(pairs, utxos, txid, outs, j + 1, amount);
        assert(Seq::<ClaimV>::empty() + Seq::<ClaimV>::empty() =~= Seq::<ClaimV>::empty());
    }
}

/// A scan over a splitting transaction's outputs where exactly one held
/// secret matches exactly one output yields exactly that claim, drops the
/// claimed output from tracking, and spends the secret.
proof fn lemma_outputs_scan_single_match(
    pairs: Seq<PairV>,
    utxos: Seq<UtxoV>,
    txid: Seq<u8>,
    outs: Seq<(u64, Seq<u8>)>,
    j: int,
    amount: u64,
    w: int,
    k: int,
)
    requires
        0 <= j <= k < outs.len(),
        0 <= w < pairs.len(),
        pairs[w].1 == outs[k].1,
        forall|a: int, b: int|
            0 <= a < pairs.len() && j <= b < outs.len() && !(a == w && b == k) ==> (
            #[trigger] pairs[a]).1 != (#[trigger] outs[b]).1,
    ensures
        outputs_scan(pairs, utxos, txid, outs, j, amount) == (
            pairs.remove(w),
            remove_op(utxos, (txid, k as u32)),
            seq![((txid, k as u32), pairs[w].0, amount)],
        ),
    decreases k - j,
{
    if j == k {
        lemma_claim_race(pairs, (txid, k as u32), outs[k].1, amount, w);
        let remaining = pairs.remove(w);
        assert(forall|a: int, b: int|
            0 <= a < remaining.len() && j + 1 <= b < outs.len() ==> (#[trigger] remaining[a]).1
                != (#[trigger] outs[b]).1) by {
            assert(forall|a: int|
                0 <= a < remaining.len() ==> #[trigger] remaining[a] == (if a < w {
                    pairs[a]
                } else {
                    pairs[a + 1]
                }));
        }
        lemma_outputs_scan_no_match(
            remaining,
            remove_op(utxos, (txid, k as u32)),
            txid,
            outs,
            j + 1,
            amount,
        );
        assert(seq![((txid, k as u32), pairs[w].0, amount)] + Seq::<ClaimV>::empty() =~= seq![
            ((txid, k as u32), pairs[w].0, amount),
        ]);
    } else {
        lemma_scan_no_match(pairs, (txid, j as u32), outs[j].1, amount);
        lemma_outputs_scan_single_match(pairs, utxos, txid, outs, j + 1, amount, w, k);
        assert(Seq::<ClaimV>::empty() + seq![((txid, k as u32), pairs[w].0, amount)] =~= seq![
            ((txid, k as u32), pairs[w].0, amount),
        ]);
    }
}

/// Law: claim race correctness over one block transaction. When a transaction
/// validly splits a tracked node and exactly one held secret matches exactly
/// one of its outputs, processing yields exactly one claim — spending that
/// output with that secret at the split value — the claimed output leaves
/// tracking, and the used secret leaves the held set while every other secret
/// stays.
pub proof fn lemma_claim_race_step(
    pairs: Seq<PairV>,
    utxos: Seq<UtxoV>,
    tx: crate::chain::TxV,
    depth: u32,
    index: u32,
    w: int,
    k: int,
)
    requires
        tx.1.len() > 0,
        lookup_op(utxos, tx.1[0]) == Some((depth, index)),
        depth < CONNECTOR_TREE_DEPTH,
        2 <= tx.2.len(),
        tx.2[0].0 == tx.2[1].0,
        0 <= k < tx.2.len(),
        0 <= w < pairs.len(),
        pairs[w].1 == tx.2[k].1,
        forall|a: int, b: int|
            0 <= a < pairs.len() && 0 <= b < tx.2.len() && !(a == w && b == k) ==> (
            #[trigger] pairs[a]).1 != (#[trigger] tx.2[b]).1,
    ensures
        watch_step(pairs, utxos, tx) == Ok::<_, BridgeError>(
            (
                pairs.remove(w),
                remove_op(
                    remove_op(utxos, tx.1[0]) + child_entries(tx.0, depth, index),
                    (tx.0, k as u32),
                ),
                seq![((tx.0, k as u32), pairs[w].0, tx.2[0].0)],
            ),
        ),
{
    lemma_outputs_scan_single_match(
        pairs,
        remove_op(utxos, tx.1[0]) + child_entries(tx.0, depth, index),
        tx.0,
        tx.2,
        0,
        tx.2[0].0,
        w,
        k,
    );
}

/// A looked-up entry of a well-formed tracked set lies inside the tree.
proof fn lemma_lookup_wf(utxos: Seq<UtxoV>, op: OutPointV, d: u32, ix: u32)
    requires
        utxos_wf(utxos),
        lookup_op(utxos, op) == Some((d, ix)),
    ensures
        d <= CONNECTOR_TREE_DEPTH,
        ix < vstd::arithmetic::power2::pow2(d as nat),
    decreases utxos.len(),
{
    if utxos.len() > 0 && utxos[0].0 != op {
        assert(forall|k: int|
            0 <= k < utxos.drop_first().len() ==> utxos.drop_first()[k] == utxos[k + 1]);
        lemma_lookup_wf(utxos.drop_first(), op, d, ix);
    }
}

/// Removing entries keeps the tracked set well formed.
proof fn lemma_remove_wf(utxos: Seq<UtxoV>, op: OutPointV)
    requires
        utxos_wf(utxos),
    ensures
        utxos_wf(remove_op(utxos, op)),
    decreases utxos.len(),
{
    if utxos.len() > 0 {
        assert(forall|k: int|
            0 <= k < utxos.drop_first().len() ==> utxos.drop_first()[k] == utxos[k + 1]);
        lemma_remove_wf(utxos.drop_first(), op);
        if utxos[0].0 != op {
            let r = seq![utxos[0]] + remove_op(utxos.drop_first(), op);
            assert(forall|k: int|
                1 <= k < r.len() ==> r[k] == remove_op(utxos.drop_first(), op)[k - 1]);
        }
    }
}

/// Scanning the held secrets keeps the tracked set well formed: it only ever
/// removes entries.
proof fn lemma_outputs_scan_wf(
    pairs: Seq<PairV>,
    utxos: Seq<UtxoV>,
    txid: Seq<u8>,
    outs: Seq<(u64, Seq<u8>)>,
    j: int,
    amount: u64,
)
    requires
        utxos_wf(utxos),
    ensures
        utxos_wf(outputs_scan(pairs, utxos, txid, outs, j, amount).1),
    decreases outs.len() - j,
{
    if 0 <= j < outs.len() {
        let op = (txid, j as u32);
        let scanned = pairs_scan(pairs, op, outs[j].1, amount);
        if scanned.1.len() > 0 {
            lemma_remove_wf(utxos, op);
            lemma_outputs_scan_wf(scanned.0, remove_op(utxos, op), txid, outs, j + 1, amount);
        } else {
            lemma_outputs_scan_wf(scanned.0, utxos, txid, outs, j + 1, amount);
        }
    }
}

/// One pass of the held secrets over one new output; see `pairs_scan`.
fn scan_pairs(pairs: &Vec<PreimagePair>, outpoint: OutPoint, spk: &Vec<u8>, amount: u64) -> (r: (
    Vec<PreimagePair>,
    Vec<ClaimRequest>,
))
    ensures
        (pairs_view(r.0@), claims_view(r.1@)) == pairs_scan(
            pairs_view(pairs@),
            op_view(outpoint),
            spk@,
            amount,
        ),
{
    let ghost pv = pairs_view(pairs@);
    let ghost total = pairs_scan(pv, op_view(outpoint), spk@, amount);
    proof {
        assert(pv.skip(0) =~= pv);
        assert(pairs_view(Seq::<PreimagePair>::empty()) =~= Seq::<PairV>::empty());
        assert(claims_view(Seq::<ClaimRequest>::empty()) =~= Seq::<ClaimV>::empty());
        assert(Seq::<PairV>::empty() + total.0 =~= total.0);
        assert(Seq::<ClaimV>::empty() + total.1 =~= total.1);
    }
    let mut kept: Vec<PreimagePair> = Vec::new();
    let mut claims: Vec<ClaimRequest> = Vec::new();
    let mut i: usize = 0;
    while i < pairs.len()
        invariant
            i <= pairs.len(),
            pv == pairs_view(pairs@),
            pv.len() == pairs@.len(),
            total == pairs_scan(pv, op_view(outpoint), spk@, amount),
            total.0 == pairs_view(kept@) + pairs_scan(
                pv.skip(i as int),
                op_view(outpoint),
                spk@,
                amount,
            ).0,
            total.1 == claims_view(claims@) + pairs_scan(
                pv.skip(i as int),
                op_view(outpoint),
                spk@,
                amount,
            ).1,
        decreases pairs.len() - i,
    {
        proof {
            assert(pv.skip(i as int)[0] == pv[i as int]);
            assert(pv.skip(i as int).drop_first() =~= pv.skip(i as int + 1));
        }
        let ghost rest = pairs_scan(pv.skip(i as int + 1), op_view(outpoint), spk@, amount);
        if bytes_eq(&pairs[i].script_pubkey, spk) {
            let c = ClaimRequest { outpoint, preimage: pairs[i].preimage, amount };
            proof {
                assert(claims_view(claims@.push(c)) =~= claims_view(claims@).push(claim_view(c)));
                assert(claims_view(claims@).push(claim_view(c)) + rest.1 =~= claims_view(claims@)
                    + (seq![(op_view(outpoint), pv[i as int].0, amount)] + rest.1));
            }
            claims.push(c);
        } else {
            let p = PreimagePair {
                preimage: pairs[i].preimage,
                script_pubkey: crate::chain::clone_bytes(&pairs[i].script_pubkey),
            };
            proof {
                assert(pair_view(p) == pv[i as int]);
                assert(pairs_view(kept@.push(p)) =~= pairs_view(kept@).push(pair_view(p)));
                assert(pairs_view(kept@).push(pair_view(p)) + rest.0 =~= pairs_view(kept@) + (seq![
                    pv[i as int],
                ] + rest.0));
            }
            kept.push(p);
        }
        i = i + 1;
    }
    proof {
        assert(pv.skip(pairs@.len() as int) =~= Seq::<PairV>::empty());
        assert(pairs_view(kept@) + Seq::<PairV>::empty() =~= pairs_view(kept@));
        assert(claims_view(claims@) + Seq::<ClaimV>::empty() =~= claims_view(claims@));
    }
    (kept, claims)
}

/// What one observed transaction does to the watcher state; see `watch_step`.
/// Takes the state by value and hands the new state back; on an error the
/// caller's own copy is what survives.
fn process_tx(pairs: Vec<PreimagePair>, utxos: Vec<TrackedUtxo>, tx: &TxData) -> (r: Result<
    (Vec<PreimagePair>, Vec<TrackedUtxo>, Vec<ClaimRequest>),
    BridgeError,
>)
    requires
        utxos_wf(utxos_view(utxos@)),
        tx.outputs@.len() <= u32::MAX,
    ensures
        match r {
            Ok(s) => {
                &&& watch_step(pairs_view(pairs@), utxos_view(utxos@), tx_view(*tx)) == Ok::<
                    _,
                    BridgeError,
                >((pairs_view(s.0@), utxos_view(s.1@), claims_view(s.2@)))
                &&& utxos_wf(utxos_view(s.1@))
            },
            Err(e) => watch_step(pairs_view(pairs@), utxos_view(utxos@), tx_view(*tx)) == Err::<
                (Seq<PairV>, Seq<UtxoV>, Seq<ClaimV>),
                _,
            >(e),
        },
{
    let ghost pv = pairs_view(pairs@);
    let ghost uv = utxos_view(utxos@);
    let ghost tv = tx_view(*tx);
    if tx.input_prevouts.len() == 0 {
        return Err(BridgeError::TxInputNotFound);
    }
    let spent = tx.input_prevouts[0];
    proof {
        assert(tv.1[0] == op_view(spent));
    }
    proof {
        assert(claims_view(Seq::<ClaimRequest>::empty()) =~= Seq::<ClaimV>::empty());
    }
    let looked = lookup_tracked(&utxos, &spent);
    match looked {
        None => Ok((pairs, utxos, Vec::new())),
        Some((depth, index)) => {
            proof {
                lemma_lookup_wf(uv, op_view(spent), depth, index);
                lemma_remove_wf(uv, op_view(spent));
            }
            let utxos1 = remove_tracked(&utxos, &spent);
            if depth >= CONNECTOR_TREE_DEPTH {
                Ok((pairs, utxos1, Vec::new()))
            } else if tx.outputs.len() < 2 {
                Err(BridgeError::SplitViolation)
            } else if tx.outputs[0].value != tx.outputs[1].value {
                proof {
                    assert(tv.2[0].0 != tv.2[1].0);
                }
                Err(BridgeError::SplitViolation)
            } else {
                let amount = tx.outputs[0].value;
                let mut utxos2 = utxos1;
                proof {
                    vstd::arithmetic::power2::lemma_pow2_unfold((depth + 1) as nat);
                    vstd::arithmetic::power2::lemma2_to64();
                    if (depth as nat) + 1 < 32 {
                        vstd::arithmetic::power2::lemma_pow2_strictly_increases(
                            (depth + 1) as nat,
                            32,
                        );
                    }
                }
                let child0 = TrackedUtxo {
                    outpoint: OutPoint { txid: tx.txid, vout: 0 },
                    depth: depth + 1,
                    index: 2 * index,
                };
                let child1 = TrackedUtxo {
                    outpoint: OutPoint { txid: tx.txid, vout: 1 },
                    depth: depth + 1,
                    index: 2 * index + 1,
                };
                let ghost utxos1v = utxos_view(utxos2@);
                utxos2.push(child0);
                utxos2.push(child1);
                proof {
                    assert(utxos_view(utxos2@) =~= utxos1v + child_entries(
                        tv.0,
                        depth,
                        index,
                    ));
                    assert(utxos_wf(utxos_view(utxos2@)));
                }
                let out = scan_outputs(pairs, utxos2, tx, amount);
                proof {
                    lemma_outputs_scan_wf(
                        pv,
                        utxos1v + child_entries(tv.0, depth, index),
                        tv.0,
                        tv.2,
                        0,
                        amount,
                    );
                }
                Ok(out)
            }
        },
    }
}

/// The scan of all outputs of a splitting transaction against the held
/// secrets; see `outputs_scan`.
fn scan_outputs(pairs: Vec<PreimagePair>, utxos: Vec<TrackedUtxo>, tx: &TxData, amount: u64) -> (r:
    (Vec<PreimagePair>, Vec<TrackedUtxo>, Vec<ClaimRequest>))
    requires
        tx.outputs@.len() <= u32::MAX,
    ensures
        (pairs_view(r.0@), utxos_view(r.1@), claims_view(r.2@)) == outputs_scan(
            pairs_view(pairs@),
            utxos_view(utxos@),
            tx.txid@,
            crate::chain::txouts_view(tx.outputs@),
            0,
            amount,
        ),
{
    let ghost pv0 = pairs_view(pairs@);
    let ghost uv0 = utxos_view(utxos@);
    let ghost ov = crate::chain::txouts_view(tx.outputs@);
    let ghost total = outputs_scan(pv0, uv0, tx.txid@, ov, 0, amount);
    let mut cur_pairs = pairs;
    let mut cur_utxos = utxos;
    let mut claims: Vec<ClaimRequest> = Vec::new();
    let mut j: usize = 0;
    proof {
        assert(claims_view(Seq::<ClaimRequest>::empty()) =~= Seq::<ClaimV>::empty());
    }
    while j < tx.outputs.len()
        invariant
            j <= tx.outputs@.len(),
            tx.outputs@.len() <= u32::MAX,
            ov == crate::chain::txouts_view(tx.outputs@),
            ov.len() == tx.outputs@.len(),
            total == outputs_scan(pv0, uv0, tx.txid@, ov, 0, amount),
            ({
                let rest = outputs_scan(
                    pairs_view(cur_pairs@),
                    utxos_view(cur_utxos@),
                    tx.txid@,
                    ov,
                    j as int,
                    amount,
                );
                total == (rest.0, rest.1, claims_view(claims@) + rest.2)
            }),
        decreases tx.outputs@.len() - j,
    {
        let op = OutPoint { txid: tx.txid, vout: j as u32 };
        proof {
            assert(ov[j as int] == crate::chain::txout_view(tx.outputs@[j as int]));
        }
        let scanned = scan_pairs(&cur_pairs, op, &tx.outputs[j].script_pubkey, amount);
        cur_pairs = scanned.0;
        let mut new_claims = scanned.1;
        if new_claims.len() > 0 {
            cur_utxos = remove_tracked(&cur_utxos, &op);
        }
        let ghost old_claims = claims@;
        let ghost nc_raw = new_claims@;
        claims.append(&mut new_claims);
        proof {
            assert(claims@ =~= old_claims + nc_raw);
            assert(claims_view(claims@) =~= claims_view(old_claims) + claims_view(nc_raw));
        }
        j = j + 1;
        proof {
            assert(claims_view(old_claims) + (claims_view(nc_raw) + outputs_scan(
                pairs_view(cur_pairs@),
                utxos_view(cur_utxos@),
                tx.txid@,
                ov,
                j as int,
                amount,
            ).2) =~= claims_view(claims@) + outputs_scan(
                pairs_view(cur_pairs@),
                utxos_view(cur_utxos@),
                tx.txid@,
                ov,
                j as int,
                amount,
            ).2);
        }
    }
    proof {
        assert(claims_view(claims@) + Seq::<ClaimV>::empty() =~= claims_view(claims@));
    }
    (cur_pairs, cur_utxos, claims)
}

/// An element-wise copy of the held secrets.
fn copy_pairs(pairs: &Vec<PreimagePair>) -> (r: Vec<PreimagePair>)
    ensures
        pairs_view(r@) == pairs_view(pairs@),
{
    let mut r: Vec<PreimagePair> = Vec::new();
    let mut i: usize = 0;
    while i < pairs.len()
        invariant
            i <= pairs@.len(),
            pairs_view(r@) =~= pairs_view(pairs@).take(i as int),
        decreases pairs.len() - i,
    {
        let p = PreimagePair {
            preimage: pairs[i].preimage,
            script_pubkey: clone_bytes(&pairs[i].script_pubkey),
        };
        proof {
            assert(pair_view(p) == pairs_view(pairs@)[i as int]);
            assert(pairs_view(r@.push(p)) =~= pairs_view(r@).push(pair_view(p)));
        }
        r.push(p);
        i = i + 1;
    }
    proof {
        assert(pairs_view(pairs@).take(pairs@.len() as int) =~= pairs_view(pairs@));
    }
    r
}

/// An element-wise copy of the tracked set.
fn copy_tracked(utxos: &Vec<TrackedUtxo>) -> (r: Vec<TrackedUtxo>)
    ensures
        utxos_view(r@) == utxos_view(utxos@),
{
    let mut r: Vec<TrackedUtxo> = Vec::new();
    let mut i: usize = 0;
    while i < utxos.len()
        invariant
            i <= utxos@.len(),
            utxos_view(r@) =~= utxos_view(utxos@).take(i as int),
        decreases utxos.len() - i,
    {
        let u = utxos[i];
        proof {
            assert(utxos_view(r@.push(u)) =~= utxos_view(r@).push(utxo_view(u)));
        }
        r.push(u);
        i = i + 1;
    }
    proof {
        assert(utxos_view(utxos@).take(utxos@.len() as int) =~= utxos_view(utxos@));
    }
    r
}

/// The new state and the claims one block's processing yields.
pub struct WatchOutcome {
    pub pairs: Vec<PreimagePair>,
    pub utxos: Vec<TrackedUtxo>,
    pub claims: Vec<ClaimRequest>,
}

/// A committee member: its operator's key, its own payout script, the
/// committee's keys, and the connector tree's funding outpoints and committed
/// hashes, row by row.
pub struct Verifier {
    pub operator_pk: Data,
    pub signer_script_pubkey: Vec<u8>,
    pub verifiers: Vec<Data>,
    pub connector_tree_utxos: Vec<Vec<OutPoint>>,
    pub connector_tree_hashes: Vec<Vec<Data>>,
}

/// The template of a claim spend of one connector-tree output: one input
/// under the node's relative timelock discipline, one output paying the whole
/// value minus the relay fee to the claimant's script.
pub open spec fn claim_tx_spec(op: OutPointV, amount: u64, payout_spk: Seq<u8>) -> TxTemplateV {
    (
        seq![(op, CONNECTOR_TREE_OPERATOR_TAKES_AFTER as u32)],
        seq![(((amount - MIN_RELAY_FEE) as u64, payout_spk))],
    )
}

impl Verifier {
    /// A fresh verifier bound to an operator key and its own payout script;
    /// committee keys and connector-tree layout arrive through the setters.
    pub fn new(operator_pk: Data, signer_script_pubkey: Vec<u8>) -> (r: Self)
        ensures
            r.operator_pk@ == operator_pk@,
            r.signer_script_pubkey@ == signer_script_pubkey@,
            r.verifiers@.len() == 0,
            r.connector_tree_utxos@.len() == 0,
            r.connector_tree_hashes@.len() == 0,
    {
        Verifier {
            operator_pk,
            signer_script_pubkey,
            verifiers: Vec::new(),
            connector_tree_utxos: Vec::new(),
            connector_tree_hashes: Vec::new(),
        }
    }

    /// Replaces the committee's ordered key list.
    pub fn set_verifiers(&mut self, verifiers: Vec<Data>)
        ensures
            *final(self) == (Verifier { verifiers, ..*old(self) }),
    {
        self.verifiers = verifiers;
    }

    /// Replaces the connector tree's funding outpoints, row by row.
    pub fn set_connector_tree_utxos(&mut self, connector_tree_utxos: Vec<Vec<OutPoint>>)
        ensures
            *final(self) == (Verifier { connector_tree_utxos, ..*old(self) }),
    {
        self.connector_tree_utxos = connector_tree_utxos;
    }

    /// Replaces the connector tree's committed hashes, row by row.
    pub fn set_connector_tree_hashes(&mut self, connector_tree_hashes: Vec<Vec<Data>>)
        ensures
            *final(self) == (Verifier { connector_tree_hashes, ..*old(self) }),
    {
        self.connector_tree_hashes = connector_tree_hashes;
    }

    /// A placeholder kept for a planned fee optimization when moving bridge
    /// funds; deliberately does nothing.
    pub fn do_me_a_favor() {
    }

    /// Whether some input of some transaction in the block spends `utxo`:
    /// the mark that the connector-tree process has started.
    pub fn did_connector_tree_process_start(&self, utxo: OutPoint, txs: &Vec<TxData>) -> (r: bool)
        ensures
            r == some_input_spends(txs_view(txs@), op_view(utxo)),
    {
        let ghost tv = txs_view(txs@);
        let mut i: usize = 0;
        while i < txs.len()
            invariant
                i <= txs@.len(),
                tv == txs_view(txs@),
                tv.len() == txs@.len(),
                forall|a: int, b: int|
                    0 <= a < i && 0 <= b < tv[a].1.len() ==> #[trigger] tv[a].1[b] != op_view(
                        utxo,
                    ),
            decreases txs.len() - i,
        {
            let tx = &txs[i];
            let mut j: usize = 0;
            while j < tx.input_prevouts.len()
                invariant
                    j <= tx.input_prevouts@.len(),
                    tv == txs_view(txs@),
                    0 <= i < tv.len(),
                    tv[i as int].1 == ops_view(tx.input_prevouts@),
                    tv[i as int].1.len() == tx.input_prevouts@.len(),
                    forall|b: int|
                        0 <= b < j ==> #[trigger] tv[i as int].1[b] != op_view(utxo),
                decreases tx.input_prevouts.len() - j,
            {
                if outpoint_eq(&tx.input_prevouts[j], &utxo) {
                    proof {
                        assert(tv[i as int].1[j as int] == op_view(utxo));
                    }
                    return true;
                }
                j = j + 1;
            }
            i = i + 1;
        }
        false
    }

    /// What one block's transactions do to this verifier's watcher state:
    /// splits of tracked connector-tree nodes are validated and propagated to
    /// the two children, and every new output a held secret can spend is
    /// turned into a claim request, the secret leaving the held set. The
    /// caller's state is read, never changed: on an error (a malformed or
    /// value-violating split) nothing survives of the block and the old state
    /// stands for a retry.
    pub fn watch_connector_tree(
        &self,
        preimage_script_pubkey_pairs: &Vec<PreimagePair>,
        utxos: &Vec<TrackedUtxo>,
        txs: &Vec<TxData>,
    ) -> (r: Result<WatchOutcome, BridgeError>)
        requires
            utxos_wf(utxos_view(utxos@)),
            forall|k: int|
                0 <= k < txs@.len() ==> (#[trigger] txs@[k]).outputs@.len() <= u32::MAX,
        ensures
            match r {
                Ok(out) => {
                    &&& watch_fold(
                        pairs_view(preimage_script_pubkey_pairs@),
                        utxos_view(utxos@),
                        txs_view(txs@),
                    ) == Ok::<_, BridgeError>(
                        (pairs_view(out.pairs@), utxos_view(out.utxos@), claims_view(out.claims@)),
                    )
                    &&& utxos_wf(utxos_view(out.utxos@))
                },
                Err(e) => watch_fold(
                    pairs_view(preimage_script_pubkey_pairs@),
                    utxos_view(utxos@),
                    txs_view(txs@),
                ) == Err::<(Seq<PairV>, Seq<UtxoV>, Seq<ClaimV>), _>(e),
            },
    {
        let ghost p0 = pairs_view(preimage_script_pubkey_pairs@);
        let ghost u0 = utxos_view(utxos@);
        let ghost tv = txs_view(txs@);
        let ghost total = watch_fold(p0, u0, tv);
        let mut cur_pairs = copy_pairs(preimage_script_pubkey_pairs);
        let mut cur_utxos = copy_tracked(utxos);
        let mut claims: Vec<ClaimRequest> = Vec::new();
        let mut i: usize = 0;
        proof {
            assert(tv.skip(0) =~= tv);
            assert(claims_view(Seq::<ClaimRequest>::empty()) =~= Seq::<ClaimV>::empty());
        }
        while i < txs.len()
            invariant
                i <= txs@.len(),
                tv == txs_view(txs@),
                tv.len() == txs@.len(),
                p0 == pairs_view(preimage_script_pubkey_pairs@),
                u0 == utxos_view(utxos@),
                total == watch_fold(p0, u0, tv),
                forall|k: int|
                    0 <= k < txs@.len() ==> (#[trigger] txs@[k]).outputs@.len() <= u32::MAX,
                utxos_wf(utxos_view(cur_utxos@)),
                ({
                    let rest = watch_fold(
                        pairs_view(cur_pairs@),
                        utxos_view(cur_utxos@),
                        tv.skip(i as int),
                    );
                    total == (match rest {
                        Ok(s) => Ok((s.0, s.1, claims_view(claims@) + s.2)),
                        Err(e) => Err(e),
                    })
                }),
            decreases txs@.len() - i,
        {
            proof {
                assert(tv.skip(i as int)[0] == tv[i as int]);
                assert(tv[i as int] == tx_view(txs@[i as int]));
                assert(tv.skip(i as int).drop_first() =~= tv.skip(i as int + 1));
            }
            let ghost cpv = pairs_view(cur_pairs@);
            let ghost cuv = utxos_view(cur_utxos@);
            match process_tx(cur_pairs, cur_utxos, &txs[i]) {
                Err(e) => {
                    proof {
                        assert(watch_fold(cpv, cuv, tv.skip(i as int)) == Err::<
                            (Seq<PairV>, Seq<UtxoV>, Seq<ClaimV>),
                            BridgeError,
                        >(e));
                    }
                    return Err(e);
                },
                Ok(s) => {
                    cur_pairs = s.0;
                    cur_utxos = s.1;
                    let mut new_claims = s.2;
                    let ghost old_claims = claims@;
                    let ghost nc_raw = new_claims@;
                    let ghost ncv = claims_view(new_claims@);
                    claims.append(&mut new_claims);
                    proof {
                        assert(claims@ =~= old_claims + nc_raw);
                        assert(claims_view(claims@) =~= claims_view(old_claims) + ncv);
                        let rest2 = watch_fold(
                            pairs_view(cur_pairs@),
                            utxos_view(cur_utxos@),
                            tv.skip(i as int + 1),
                        );
                        if rest2 is Ok {
                            let s2 = rest2.unwrap();
                            assert(claims_view(old_claims) + (ncv + s2.2) =~= claims_view(claims@)
                                + s2.2);
                        }
                    }
                },
            }
            i = i + 1;
        }
        proof {
            assert(tv.skip(txs@.len() as int) =~= Seq::<crate::chain::TxV>::empty());
            assert(claims_view(claims@) + Seq::<ClaimV>::empty() =~= claims_view(claims@));
        }
        Ok(WatchOutcome { pairs: cur_pairs, utxos: cur_utxos, claims })
    }

    /// The claim spend of a connector-tree output the verifier can take with
    /// a preimage: the whole value minus the relay fee goes to the verifier's
    /// own script. The embedding layer attaches the preimage witness and
    /// broadcasts.
    pub fn spend_connector_tree_utxo(&self, utxo: OutPoint, amount: u64) -> (t: TxTemplate)
        requires
            amount >= MIN_RELAY_FEE,
        ensures
            template_view(t) == claim_tx_spec(op_view(utxo), amount, self.signer_script_pubkey@),
    {
        let input = TxIn {
            previous_output: utxo,
            sequence: CONNECTOR_TREE_OPERATOR_TAKES_AFTER as u32,
        };
        let output = TxOut {
            value: amount - MIN_RELAY_FEE,
            script_pubkey: clone_bytes(&self.signer_script_pubkey),
        };
        let mut inputs: Vec<TxIn> = Vec::new();
        inputs.push(input);
        let mut outputs: Vec<TxOut> = Vec::new();
        outputs.push(output);
        let t = TxTemplate { inputs, outputs };
        proof {
            assert(template_view(t).0 =~= claim_tx_spec(
                op_view(utxo),
                amount,
                self.signer_script_pubkey@,
            ).0);
            assert(template_view(t).1 =~= claim_tx_spec(
                op_view(utxo),
                amount,
                self.signer_script_pubkey@,
            ).1);
        }
        t
    }

    /// The claim spend of a connector-tree leaf output: the same template as
    /// any node claim; only the witness stacking, which the embedding layer
    /// does, differs.
    pub fn spend_connector_tree_leaf_utxo(&self, utxo: OutPoint, amount: u64) -> (t: TxTemplate)
        requires
            amount >= MIN_RELAY_FEE,
        ensures
            template_view(t) == claim_tx_spec(op_view(utxo), amount, self.signer_script_pubkey@),
    {
        self.spend_connector_tree_utxo(utxo, amount)
    }
}

} // verus!
