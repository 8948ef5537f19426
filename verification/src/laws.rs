//! The global laws of the design, as proved theorems.
//!
//! Each law is stated over the same spec functions the engines' contracts
//! use, so together with those contracts it holds of the executable code.

use vstd::prelude::*;

use vstd::seq_lib::lemma_no_dup_in_concat;

use crate::entity::{
    DepositInput, MinimalAddress, MinimalBody, MinimalHeader, MinimalInput, MinimalSignature,
    Outpoint, Output, RefundInput, Transaction,
};
use crate::oracle::MainState;
use crate::projection::{
    coinbase_pairs, created_outpoints, created_pairs, flat_deposit_inputs, flat_inputs,
    flat_refund_inputs, flat_tx_pairs, keys_of_pairs, tx_pairs,
};
use crate::state::{
    all_deposits_resolve, all_inputs_resolve, all_refunds_resolve, coinbase_sum, connect_rel,
    created_sum, deposit_sum, deposits_authorized, disconnect_rel, inputs_authorized,
    refund_sum, refunds_authorized, spec_valid_block, spent_outpoints, spent_sum, withdrawal_sum,
    MinimalState,
};
use crate::table::lookup;

verus! {

/// Conservation law: an accepted block's coinbase is exactly the value of
/// its new outputs and withdrawals minus the value of its spends, claimed
/// deposits and claimed refunds.
pub proof fn lemma_conservation(
    state: MinimalState,
    main: MainState,
    header: MinimalHeader,
    body: MinimalBody,
)
    requires
        spec_valid_block(state, main, header, body),
    ensures
        coinbase_sum(body) == created_sum(header.block_hash, body) + withdrawal_sum(body)
            - spent_sum(state, flat_inputs(body.transactions@)) - deposit_sum(
            main,
            flat_deposit_inputs(body.transactions@),
        ) - refund_sum(main, flat_refund_inputs(body.transactions@)),
{
}

/// A block is validly connectable on a state when every outpoint it spends
/// is unspent there and every outpoint it creates is new to the state.
pub open spec fn connectable(s: MinimalState, header: MinimalHeader, body: MinimalBody) -> bool {
    &&& (forall|x: Outpoint| spent_outpoints(body).contains(x) ==> s.utxos@.contains(x))
    &&& (forall|x: Outpoint|
        created_outpoints(header.block_hash, body).contains(x) ==> !s.utxos@.contains(x))
    &&& (forall|x: Outpoint|
        created_outpoints(header.block_hash, body).contains(x) ==> lookup(s.outputs@, x) is None)
}

/// A bound key appears among the keys.
proof fn lemma_lookup_some_in_keys(s: Seq<(Outpoint, Output)>, k: Outpoint)
    requires
        lookup(s, k) is Some,
    ensures
        keys_of_pairs(s).contains(k),
    decreases s.len(),
{
    if s.len() > 0 {
        if s.last().0 == k {
            assert(keys_of_pairs(s)[s.len() - 1] == k);
        } else {
            lemma_lookup_some_in_keys(s.drop_last(), k);
            let idx = choose|idx: int|
                0 <= idx < s.len() - 1 && keys_of_pairs(s.drop_last())[idx] == k;
            assert(s.drop_last()[idx] == s[idx]);
            assert(keys_of_pairs(s)[idx] == k);
        }
    }
}

/// Round-trip law: connecting a validly connectable block and then
/// disconnecting it restores the ledger exactly — the unspent set and the
/// output index both come back to what they were.
pub proof fn lemma_round_trip(
    s0: MinimalState,
    s1: MinimalState,
    s2: MinimalState,
    header: MinimalHeader,
    body: MinimalBody,
)
    requires
        connectable(s0, header, body),
        connect_rel(s0, s1, header, body),
        disconnect_rel(s1, s2, header, body),
    ensures
        s2.utxo_set() == s0.utxo_set(),
        s2.output_index() == s0.output_index(),
{
    assert forall|x: Outpoint| s2.utxos@.contains(x) <==> s0.utxos@.contains(x) by {
        assert(s2.utxos@.contains(x) <==> ((s1.utxos@.contains(x) || spent_outpoints(
            body,
        ).contains(x)) && !created_outpoints(header.block_hash, body).contains(x)));
        assert(s1.utxos@.contains(x) <==> ((s0.utxos@.contains(x) && !spent_outpoints(
            body,
        ).contains(x)) || created_outpoints(header.block_hash, body).contains(x)));
        if created_outpoints(header.block_hash, body).contains(x) {
            assert(!s0.utxos@.contains(x));
        }
        if spent_outpoints(body).contains(x) {
            assert(s0.utxos@.contains(x));
        }
    }
    assert(s2.utxo_set() =~= s0.utxo_set());
    assert forall|k: Outpoint| lookup(s2.outputs@, k) == lookup(s0.outputs@, k) by {
        assert(lookup(s2.outputs@, k) == (if created_outpoints(
            header.block_hash,
            body,
        ).contains(k) {
            None::<Output>
        } else {
            lookup(s1.outputs@, k)
        }));
        assert(lookup(s1.outputs@, k) == (if lookup(
            created_pairs(header.block_hash, body),
            k,
        ) is Some {
            lookup(created_pairs(header.block_hash, body), k)
        } else {
            lookup(s0.outputs@, k)
        }));
        if created_outpoints(header.block_hash, body).contains(k) {
            assert(lookup(s0.outputs@, k) is None);
        } else {
            if lookup(created_pairs(header.block_hash, body), k) is Some {
                lemma_lookup_some_in_keys(created_pairs(header.block_hash, body), k);
                assert(false);
            }
        }
    }
    assert(s2.output_index() =~= s0.output_index());
}

/// An address accepts exactly one signature value: any change to an
/// accepted signature yields a rejected one.
pub proof fn lemma_signature_unique(
    address: MinimalAddress,
    accepted: MinimalSignature,
    other: MinimalSignature,
)
    requires
        address.spec_check_signature(accepted),
        other != accepted,
    ensures
        !address.spec_check_signature(other),
{
}

/// Authorization law, spends: take an accepted block and change one
/// spend's signature to anything else; a block whose flattened spends are
/// that tampered list is rejected.
pub proof fn lemma_authorization_spend(
    state: MinimalState,
    main: MainState,
    header: MinimalHeader,
    body: MinimalBody,
    tampered_body: MinimalBody,
    i: int,
    tampered: MinimalSignature,
)
    requires
        spec_valid_block(state, main, header, body),
        0 <= i < flat_inputs(body.transactions@).len(),
        tampered != flat_inputs(body.transactions@)[i].signature,
        flat_inputs(tampered_body.transactions@) == flat_inputs(body.transactions@).update(
            i,
            (MinimalInput {
                outpoint: flat_inputs(body.transactions@)[i].outpoint,
                signature: tampered,
            }),
        ),
    ensures
        !spec_valid_block(state, main, header, tampered_body),
{
    let ins = flat_inputs(body.transactions@);
    let ins2 = flat_inputs(tampered_body.transactions@);
    assert(ins2[i].outpoint == ins[i].outpoint);
    assert(ins2[i].signature == tampered);
    assert(lookup(state.outputs@, ins[i].outpoint).unwrap().address.spec_check_signature(
        ins[i].signature,
    ));
    assert(!inputs_authorized(state, ins2));
}

/// Authorization law, deposit claims: changing one deposit claim's
/// signature to anything else turns an accepted block into a rejected one.
pub proof fn lemma_authorization_deposit(
    state: MinimalState,
    main: MainState,
    header: MinimalHeader,
    body: MinimalBody,
    tampered_body: MinimalBody,
    i: int,
    tampered: MinimalSignature,
)
    requires
        spec_valid_block(state, main, header, body),
        0 <= i < flat_deposit_inputs(body.transactions@).len(),
        tampered != flat_deposit_inputs(body.transactions@)[i].signature,
        flat_deposit_inputs(tampered_body.transactions@) == flat_deposit_inputs(
            body.transactions@,
        ).update(
            i,
            (DepositInput {
                outpoint: flat_deposit_inputs(body.transactions@)[i].outpoint,
                signature: tampered,
            }),
        ),
    ensures
        !spec_valid_block(state, main, header, tampered_body),
{
    let deps = flat_deposit_inputs(body.transactions@);
    let deps2 = flat_deposit_inputs(tampered_body.transactions@);
    assert(deps2[i].outpoint == deps[i].outpoint);
    assert(deps2[i].signature == tampered);
    assert(lookup(main.deposits@, deps[i].outpoint).unwrap().address.spec_check_signature(
        deps[i].signature,
    ));
    assert(!deposits_authorized(main, deps2));
}

/// Authorization law, refund claims: changing one refund claim's signature
/// to anything else turns an accepted block into a rejected one.
pub proof fn lemma_authorization_refund(
    state: MinimalState,
    main: MainState,
    header: MinimalHeader,
    body: MinimalBody,
    tampered_body: MinimalBody,
    i: int,
    tampered: MinimalSignature,
)
    requires
        spec_valid_block(state, main, header, body),
        0 <= i < flat_refund_inputs(body.transactions@).len(),
        tampered != flat_refund_inputs(body.transactions@)[i].signature,
        flat_refund_inputs(tampered_body.transactions@) == flat_refund_inputs(
            body.transactions@,
        ).update(
            i,
            (RefundInput {
                outpoint: flat_refund_inputs(body.transactions@)[i].outpoint,
                signature: tampered,
            }),
        ),
    ensures
        !spec_valid_block(state, main, header, tampered_body),
{
    let refs = flat_refund_inputs(body.transactions@);
    let refs2 = flat_refund_inputs(tampered_body.transactions@);
    assert(refs2[i].outpoint == refs[i].outpoint);
    assert(refs2[i].signature == tampered);
    assert(lookup(main.withdrawals@, refs[i].outpoint).unwrap().address.spec_check_signature(
        refs[i].signature,
    ));
    assert(!refunds_authorized(main, refs2));
}

/// Whether an outpoint is a transaction-output key of one of `txs`.
spec fn is_tx_key(txs: Seq<Transaction>, x: Outpoint) -> bool {
    exists|t: int|
        0 <= t < txs.len() && (x matches Outpoint::Regular { txid, n } && txid == (
        #[trigger] txs[t]).txid)
}

/// The keys a run of transactions creates are pairwise distinct and all
/// carry one of the run's transaction digests.
proof fn lemma_flat_tx_keys_unique(txs: Seq<Transaction>)
    requires
        forall|t1: int, t2: int|
            0 <= t1 < t2 < txs.len() ==> txs[t1].txid != txs[t2].txid,
    ensures
        keys_of_pairs(flat_tx_pairs(txs)).no_duplicates(),
        forall|x: Outpoint| keys_of_pairs(flat_tx_pairs(txs)).contains(x) ==> is_tx_key(txs, x),
    decreases txs.len(),
{
    if txs.len() == 0 {
    } else {
        let dl = txs.drop_last();
        let last = txs.last();
        assert forall|t1: int, t2: int|
            0 <= t1 < t2 < dl.len() implies dl[t1].txid != dl[t2].txid by {
            assert(dl[t1] == txs[t1]);
            assert(dl[t2] == txs[t2]);
        }
        lemma_flat_tx_keys_unique(dl);
        let a = keys_of_pairs(flat_tx_pairs(dl));
        let b = keys_of_pairs(tx_pairs(last));
        assert(keys_of_pairs(flat_tx_pairs(txs)) =~= a + b);
        assert(last.outputs@.len() == last.outputs.len());
        assert forall|p: int, q: int|
            0 <= p < b.len() && 0 <= q < b.len() && p != q implies b[p] != b[q] by {
            assert(b[p] == (Outpoint::Regular { txid: last.txid, n: p as usize }));
            assert(b[q] == (Outpoint::Regular { txid: last.txid, n: q as usize }));
        }
        assert forall|p: int, q: int|
            0 <= p < a.len() && 0 <= q < b.len() implies a[p] != b[q] by {
            assert(a.contains(a[p]));
            assert(is_tx_key(dl, a[p]));
            let t = choose|t: int|
                0 <= t < dl.len() && (a[p] matches Outpoint::Regular { txid, n } && txid == (
                #[trigger] dl[t]).txid);
            assert(dl[t] == txs[t]);
            assert(txs[t].txid != last.txid);
            assert(b[q] == (Outpoint::Regular { txid: last.txid, n: q as usize }));
        }
        lemma_no_dup_in_concat(a, b);
        assert forall|x: Outpoint|
            keys_of_pairs(flat_tx_pairs(txs)).contains(x) implies is_tx_key(txs, x) by {
            let p = choose|p: int|
                0 <= p < (a + b).len() && (a + b)[p] == x;
            if p < a.len() {
                assert(a.contains(x));
                assert(is_tx_key(dl, x));
                let t = choose|t: int|
                    0 <= t < dl.len() && (x matches Outpoint::Regular { txid, n } && txid == (
                    #[trigger] dl[t]).txid);
                assert(txs[t] == dl[t]);
                assert(is_tx_key(txs, x));
            } else {
                assert(b[p - a.len()] == x);
                assert(x == (Outpoint::Regular {
                    txid: last.txid,
                    n: (p - a.len()) as usize,
                }));
                assert(txs[txs.len() - 1] == last);
                assert(is_tx_key(txs, x));
            }
        }
    }
}

/// Uniqueness law: as long as the block's transaction digests are pairwise
/// distinct — which collision resistance of the digest gives for distinct
/// transactions — every outpoint Body Projection mints for the block is
/// distinct from every other.
pub proof fn lemma_outpoint_uniqueness(header: MinimalHeader, body: MinimalBody)
    requires
        forall|t1: int, t2: int|
            0 <= t1 < t2 < body.transactions@.len() ==> body.transactions@[t1].txid
                != body.transactions@[t2].txid,
    ensures
        created_outpoints(header.block_hash, body).no_duplicates(),
{
    let h = header.block_hash;
    let a = keys_of_pairs(coinbase_pairs(h, body.coinbase@));
    let b = keys_of_pairs(flat_tx_pairs(body.transactions@));
    assert(created_outpoints(h, body) =~= a + b);
    assert(body.coinbase@.len() == body.coinbase.len());
    assert forall|p: int, q: int|
        0 <= p < a.len() && 0 <= q < a.len() && p != q implies a[p] != a[q] by {
        assert(a[p] == (Outpoint::Coinbase { block_hash: h, n: p as usize }));
        assert(a[q] == (Outpoint::Coinbase { block_hash: h, n: q as usize }));
    }
    lemma_flat_tx_keys_unique(body.transactions@);
    assert forall|p: int, q: int| 0 <= p < a.len() && 0 <= q < b.len() implies a[p] != b[q] by {
        assert(a[p] == (Outpoint::Coinbase { block_hash: h, n: p as usize }));
        assert(b.contains(b[q]));
        assert(is_tx_key(body.transactions@, b[q]));
    }
    lemma_no_dup_in_concat(a, b);
}

/// Missing-reference law: a block referencing a UTXO the output index does
/// not know, a deposit the oracle does not know, or a refundable
/// withdrawal the oracle does not know is rejected, whatever its other
/// fields hold.
pub proof fn lemma_missing_reference(
    state: MinimalState,
    main: MainState,
    header: MinimalHeader,
    body: MinimalBody,
)
    requires
        !all_inputs_resolve(state, flat_inputs(body.transactions@)) || !all_deposits_resolve(
            main,
            flat_deposit_inputs(body.transactions@),
        ) || !all_refunds_resolve(main, flat_refund_inputs(body.transactions@)),
    ensures
        !spec_valid_block(state, main, header, body),
{
}

} // verus!
