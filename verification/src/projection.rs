//! Body projection: the flat views of a block body.
//!
//! The validation and transition engines never walk the nested body
//! directly; they work on five flat projections — spends, deposit claims,
//! refund claims, new withdrawals, and the new outputs keyed by their
//! freshly minted outpoints. Projection is pure and total; malformed
//! references are caught downstream by the validation engine.

use vstd::prelude::*;

use crate::entity::{
    Deposit, DepositInput, Digest, MainRef, MinimalBody, MinimalHeader, MinimalInput, Outpoint,
    Output, RefundInput, Transaction, Withdrawal,
};

verus! {

/// Every transaction's spends, in transaction order, then per-transaction
/// input order.
pub open spec fn flat_inputs(txs: Seq<Transaction>) -> Seq<MinimalInput>
    decreases txs.len(),
{
    if txs.len() == 0 {
        Seq::empty()
    } else {
        flat_inputs(txs.drop_last()) + txs.last().inputs@
    }
}

/// Every transaction's deposit claims, flattened in the same order.
pub open spec fn flat_deposit_inputs(txs: Seq<Transaction>) -> Seq<DepositInput>
    decreases txs.len(),
{
    if txs.len() == 0 {
        Seq::empty()
    } else {
        flat_deposit_inputs(txs.drop_last()) + txs.last().deposit_inputs@
    }
}

/// Every transaction's refund claims, flattened in the same order.
pub open spec fn flat_refund_inputs(txs: Seq<Transaction>) -> Seq<RefundInput>
    decreases txs.len(),
{
    if txs.len() == 0 {
        Seq::empty()
    } else {
        flat_refund_inputs(txs.drop_last()) + txs.last().refund_inputs@
    }
}

/// Every transaction's new withdrawals, flattened in the same order.
pub open spec fn flat_withdrawals(txs: Seq<Transaction>) -> Seq<Withdrawal>
    decreases txs.len(),
{
    if txs.len() == 0 {
        Seq::empty()
    } else {
        flat_withdrawals(txs.drop_last()) + txs.last().withdrawals@
    }
}

/// The block's coinbase outputs, each keyed by the block hash and its
/// position in the coinbase.
pub open spec fn coinbase_pairs(block_hash: Digest, coinbase: Seq<Output>) -> Seq<
    (Outpoint, Output),
> {
    Seq::new(
        coinbase.len(),
        |i: int| (Outpoint::Coinbase { block_hash, n: i as usize }, coinbase[i]),
    )
}

/// One transaction's outputs, each keyed by the transaction's digest and its
/// position among the transaction's outputs.
pub open spec fn tx_pairs(tx: Transaction) -> Seq<(Outpoint, Output)> {
    Seq::new(
        tx.outputs@.len(),
        |i: int| (Outpoint::Regular { txid: tx.txid, n: i as usize }, tx.outputs@[i]),
    )
}

/// Every transaction's keyed outputs, in transaction order.
pub open spec fn flat_tx_pairs(txs: Seq<Transaction>) -> Seq<(Outpoint, Output)>
    decreases txs.len(),
{
    if txs.len() == 0 {
        Seq::empty()
    } else {
        flat_tx_pairs(txs.drop_last()) + tx_pairs(txs.last())
    }
}

/// Every output the block creates — coinbase first, then per-transaction
/// outputs — keyed by its freshly minted outpoint.
pub open spec fn created_pairs(block_hash: Digest, body: MinimalBody) -> Seq<(Outpoint, Output)> {
    coinbase_pairs(block_hash, body.coinbase@) + flat_tx_pairs(body.transactions@)
}

/// The outpoints the block creates.
pub open spec fn created_outpoints(block_hash: Digest, body: MinimalBody) -> Seq<Outpoint> {
    keys_of_pairs(created_pairs(block_hash, body))
}

/// The outpoints a sequence of spends references.
pub open spec fn outpoints_of_inputs(s: Seq<MinimalInput>) -> Seq<Outpoint> {
    s.map_values(|inp: MinimalInput| inp.outpoint)
}

/// The main-chain references a sequence of deposit claims names.
pub open spec fn refs_of_deposit_inputs(s: Seq<DepositInput>) -> Seq<MainRef> {
    s.map_values(|inp: DepositInput| inp.outpoint)
}

/// The main-chain references a sequence of refund claims names.
pub open spec fn refs_of_refund_inputs(s: Seq<RefundInput>) -> Seq<MainRef> {
    s.map_values(|inp: RefundInput| inp.outpoint)
}

/// The keys of a sequence of keyed outputs.
pub open spec fn keys_of_pairs(s: Seq<(Outpoint, Output)>) -> Seq<Outpoint> {
    s.map_values(|p: (Outpoint, Output)| p.0)
}

/// The amounts of a sequence of outputs.
pub open spec fn amounts_of_outputs(s: Seq<Output>) -> Seq<u64> {
    s.map_values(|o: Output| o.amount)
}

/// The amounts of a sequence of keyed outputs.
pub open spec fn amounts_of_pairs(s: Seq<(Outpoint, Output)>) -> Seq<u64> {
    s.map_values(|p: (Outpoint, Output)| p.1.amount)
}

/// The amounts of a sequence of withdrawals.
pub open spec fn amounts_of_withdrawals(s: Seq<Withdrawal>) -> Seq<u64> {
    s.map_values(|w: Withdrawal| w.amount)
}

/// The amounts of a sequence of deposits.
pub open spec fn amounts_of_deposits(s: Seq<Deposit>) -> Seq<u64> {
    s.map_values(|d: Deposit| d.amount)
}

impl MinimalBody {
    /// Flattens every transaction's spends.
    #[verifier::loop_isolation(false)]
    pub fn inputs(&self) -> (r: Vec<MinimalInput>)
        ensures
            r@ == flat_inputs(self.transactions@),
    {
        let mut r: Vec<MinimalInput> = Vec::new();
        assert(self.transactions@.take(0) =~= Seq::<Transaction>::empty());
        let mut i: usize = 0;
        while i < self.transactions.len()
            invariant
                i <= self.transactions.len(),
                r@ == flat_inputs(self.transactions@.take(i as int)),
            decreases self.transactions.len() - i,
        {
            let tx = &self.transactions[i];
            let mut j: usize = 0;
            while j < tx.inputs.len()
                invariant
                    j <= tx.inputs.len(),
                    r@ == flat_inputs(self.transactions@.take(i as int)) + tx.inputs@.take(
                        j as int,
                    ),
                decreases tx.inputs.len() - j,
            {
                r.push(tx.inputs[j]);
                assert(r@ =~= flat_inputs(self.transactions@.take(i as int)) + tx.inputs@.take(
                    j + 1,
                ));
                j = j + 1;
            }
            proof {
                assert(tx.inputs@.take(tx.inputs@.len() as int) =~= tx.inputs@);
                assert(self.transactions@.take(i + 1).drop_last() =~= self.transactions@.take(
                    i as int,
                ));
                assert(self.transactions@.take(i + 1).last() == self.transactions@[i as int]);
            }
            i = i + 1;
        }
        assert(self.transactions@.take(self.transactions@.len() as int) =~= self.transactions@);
        r
    }

    /// Flattens every transaction's deposit claims.
    #[verifier::loop_isolation(false)]
    pub fn deposit_inputs(&self) -> (r: Vec<DepositInput>)
        ensures
            r@ == flat_deposit_inputs(self.transactions@),
    {
        let mut r: Vec<DepositInput> = Vec::new();
        assert(self.transactions@.take(0) =~= Seq::<Transaction>::empty());
        let mut i: usize = 0;
        while i < self.transactions.len()
            invariant
                i <= self.transactions.len(),
                r@ == flat_deposit_inputs(self.transactions@.take(i as int)),
            decreases self.transactions.len() - i,
        {
            let tx = &self.transactions[i];
            let mut j: usize = 0;
            while j < tx.deposit_inputs.len()
                invariant
                    j <= tx.deposit_inputs.len(),
                    r@ == flat_deposit_inputs(self.transactions@.take(i as int))
                        + tx.deposit_inputs@.take(j as int),
                decreases tx.deposit_inputs.len() - j,
            {
                r.push(tx.deposit_inputs[j]);
                assert(r@ =~= flat_deposit_inputs(self.transactions@.take(i as int))
                    + tx.deposit_inputs@.take(j + 1));
                j = j + 1;
            }
            proof {
                assert(tx.deposit_inputs@.take(tx.deposit_inputs@.len() as int)
                    =~= tx.deposit_inputs@);
                assert(self.transactions@.take(i + 1).drop_last() =~= self.transactions@.take(
                    i as int,
                ));
                assert(self.transactions@.take(i + 1).last() == self.transactions@[i as int]);
            }
            i = i + 1;
        }
        assert(self.transactions@.take(self.transactions@.len() as int) =~= self.transactions@);
        r
    }

    /// Flattens every transaction's refund claims.
    #[verifier::loop_isolation(false)]
    pub fn refund_inputs(&self) -> (r: Vec<RefundInput>)
        ensures
            r@ == flat_refund_inputs(self.transactions@),
    {
        let mut r: Vec<RefundInput> = Vec::new();
        assert(self.transactions@.take(0) =~= Seq::<Transaction>::empty());
        let mut i: usize = 0;
        while i < self.transactions.len()
            invariant
                i <= self.transactions.len(),
                r@ == flat_refund_inputs(self.transactions@.take(i as int)),
            decreases self.transactions.len() - i,
        {
            let tx = &self.transactions[i];
            let mut j: usize = 0;
            while j < tx.refund_inputs.len()
                invariant
                    j <= tx.refund_inputs.len(),
                    r@ == flat_refund_inputs(self.transactions@.take(i as int))
                        + tx.refund_inputs@.take(j as int),
                decreases tx.refund_inputs.len() - j,
            {
                r.push(tx.refund_inputs[j]);
                assert(r@ =~= flat_refund_inputs(self.transactions@.take(i as int))
                    + tx.refund_inputs@.take(j + 1));
                j = j + 1;
            }
            proof {
                assert(tx.refund_inputs@.take(tx.refund_inputs@.len() as int)
                    =~= tx.refund_inputs@);
                assert(self.transactions@.take(i + 1).drop_last() =~= self.transactions@.take(
                    i as int,
                ));
                assert(self.transactions@.take(i + 1).last() == self.transactions@[i as int]);
            }
            i = i + 1;
        }
        assert(self.transactions@.take(self.transactions@.len() as int) =~= self.transactions@);
        r
    }

    /// Flattens every transaction's new withdrawals.
    #[verifier::loop_isolation(false)]
    pub fn withdrawals(&self) -> (r: Vec<Withdrawal>)
        ensures
            r@ == flat_withdrawals(self.transactions@),
    {
        let mut r: Vec<Withdrawal> = Vec::new();
        assert(self.transactions@.take(0) =~= Seq::<Transaction>::empty());
        let mut i: usize = 0;
        while i < self.transactions.len()
            invariant
                i <= self.transactions.len(),
                r@ == flat_withdrawals(self.transactions@.take(i as int)),
            decreases self.transactions.len() - i,
        {
            let tx = &self.transactions[i];
            let mut j: usize = 0;
            while j < tx.withdrawals.len()
                invariant
                    j <= tx.withdrawals.len(),
                    r@ == flat_withdrawals(self.transactions@.take(i as int))
                        + tx.withdrawals@.take(j as int),
                decreases tx.withdrawals.len() - j,
            {
                r.push(tx.withdrawals[j]);
                assert(r@ =~= flat_withdrawals(self.transactions@.take(i as int))
                    + tx.withdrawals@.take(j + 1));
                j = j + 1;
            }
            proof {
                assert(tx.withdrawals@.take(tx.withdrawals@.len() as int) =~= tx.withdrawals@);
                assert(self.transactions@.take(i + 1).drop_last() =~= self.transactions@.take(
                    i as int,
                ));
                assert(self.transactions@.take(i + 1).last() == self.transactions@[i as int]);
            }
            i = i + 1;
        }
        assert(self.transactions@.take(self.transactions@.len() as int) =~= self.transactions@);
        r
    }

    /// Every output this body creates, keyed by its freshly minted outpoint:
    /// the coinbase outputs under the header's digest, then each
    /// transaction's outputs under the transaction's digest.
    #[verifier::loop_isolation(false)]
    pub fn outputs(&self, header: &MinimalHeader) -> (r: Vec<(Outpoint, Output)>)
        ensures
            r@ == created_pairs(header.block_hash, *self),
    {
        let block_hash = header.block_hash;
        let mut r: Vec<(Outpoint, Output)> = Vec::new();
        let mut i: usize = 0;
        assert(r@ =~= coinbase_pairs(block_hash, self.coinbase@.take(0)));
        while i < self.coinbase.len()
            invariant
                i <= self.coinbase.len(),
                r@ == coinbase_pairs(block_hash, self.coinbase@.take(i as int)),
            decreases self.coinbase.len() - i,
        {
            r.push((Outpoint::Coinbase { block_hash, n: i }, self.coinbase[i]));
            assert(r@ =~= coinbase_pairs(block_hash, self.coinbase@.take(i + 1)));
            i = i + 1;
        }
        assert(self.coinbase@.take(self.coinbase@.len() as int) =~= self.coinbase@);
        let mut t: usize = 0;
        assert(flat_tx_pairs(self.transactions@.take(0)) =~= Seq::<(Outpoint, Output)>::empty());
        assert(r@ =~= coinbase_pairs(block_hash, self.coinbase@) + flat_tx_pairs(
            self.transactions@.take(0),
        ));
        while t < self.transactions.len()
            invariant
                t <= self.transactions.len(),
                r@ == coinbase_pairs(block_hash, self.coinbase@) + flat_tx_pairs(
                    self.transactions@.take(t as int),
                ),
            decreases self.transactions.len() - t,
        {
            let tx = &self.transactions[t];
            let mut j: usize = 0;
            while j < tx.outputs.len()
                invariant
                    j <= tx.outputs.len(),
                    r@ == coinbase_pairs(block_hash, self.coinbase@) + flat_tx_pairs(
                        self.transactions@.take(t as int),
                    ) + tx_pairs(*tx).take(j as int),
                decreases tx.outputs.len() - j,
            {
                r.push((Outpoint::Regular { txid: tx.txid, n: j }, tx.outputs[j]));
                assert(r@ =~= coinbase_pairs(block_hash, self.coinbase@) + flat_tx_pairs(
                    self.transactions@.take(t as int),
                ) + tx_pairs(*tx).take(j + 1));
                j = j + 1;
            }
            proof {
                assert(tx_pairs(*tx).take(tx.outputs@.len() as int) =~= tx_pairs(*tx));
                assert(self.transactions@.take(t + 1).drop_last() =~= self.transactions@.take(
                    t as int,
                ));
                assert(self.transactions@.take(t + 1).last() == self.transactions@[t as int]);
            }
            t = t + 1;
        }
        assert(self.transactions@.take(self.transactions@.len() as int) =~= self.transactions@);
        r
    }
}

/// Copies out the amounts of a vector of outputs.
#[verifier::loop_isolation(false)]
pub fn output_amounts(v: &Vec<Output>) -> (r: Vec<u64>)
    ensures
        r@ == amounts_of_outputs(v@),
{
    let mut r: Vec<u64> = Vec::new();
    let mut i: usize = 0;
    assert(r@ =~= amounts_of_outputs(v@.take(0)));
    while i < v.len()
        invariant
            i <= v.len(),
            r@ == amounts_of_outputs(v@.take(i as int)),
        decreases v.len() - i,
    {
        r.push(v[i].amount);
        assert(r@ =~= amounts_of_outputs(v@.take(i + 1)));
        i = i + 1;
    }
    assert(v@.take(v@.len() as int) =~= v@);
    r
}

/// Copies out the amounts of a vector of keyed outputs.
#[verifier::loop_isolation(false)]
pub fn pair_amounts(v: &Vec<(Outpoint, Output)>) -> (r: Vec<u64>)
    ensures
        r@ == amounts_of_pairs(v@),
{
    let mut r: Vec<u64> = Vec::new();
    let mut i: usize = 0;
    assert(r@ =~= amounts_of_pairs(v@.take(0)));
    while i < v.len()
        invariant
            i <= v.len(),
            r@ == amounts_of_pairs(v@.take(i as int)),
        decreases v.len() - i,
    {
        r.push(v[i].1.amount);
        assert(r@ =~= amounts_of_pairs(v@.take(i + 1)));
        i = i + 1;
    }
    assert(v@.take(v@.len() as int) =~= v@);
    r
}

/// Copies out the amounts of a vector of withdrawals.
#[verifier::loop_isolation(false)]
pub fn withdrawal_amounts(v: &Vec<Withdrawal>) -> (r: Vec<u64>)
    ensures
        r@ == amounts_of_withdrawals(v@),
{
    let mut r: Vec<u64> = Vec::new();
    let mut i: usize = 0;
    assert(r@ =~= amounts_of_withdrawals(v@.take(0)));
    while i < v.len()
        invariant
            i <= v.len(),
            r@ == amounts_of_withdrawals(v@.take(i as int)),
        decreases v.len() - i,
    {
        r.push(v[i].amount);
        assert(r@ =~= amounts_of_withdrawals(v@.take(i + 1)));
        i = i + 1;
    }
    assert(v@.take(v@.len() as int) =~= v@);
    r
}

/// Copies out the amounts of a vector of deposits.
#[verifier::loop_isolation(false)]
pub fn deposit_amounts(v: &Vec<Deposit>) -> (r: Vec<u64>)
    ensures
        r@ == amounts_of_deposits(v@),
{
    let mut r: Vec<u64> = Vec::new();
    let mut i: usize = 0;
    assert(r@ =~= amounts_of_deposits(v@.take(0)));
    while i < v.len()
        invariant
            i <= v.len(),
            r@ == amounts_of_deposits(v@.take(i as int)),
        decreases v.len() - i,
    {
        r.push(v[i].amount);
        assert(r@ =~= amounts_of_deposits(v@.take(i + 1)));
        i = i + 1;
    }
    assert(v@.take(v@.len() as int) =~= v@);
    r
}

} // verus!
