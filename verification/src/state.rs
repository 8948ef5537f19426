//! The ledger state, its validation engine and its transition engine.
//!
//! The state is a value: a set of unspent outpoints plus an index from
//! every outpoint ever created to its output record. `validate_block` is a
//! pure predicate over the state and the main-chain oracle; `connect`
//! applies an accepted block and `disconnect` undoes a previously connected
//! one, in exact reverse application order.

use vstd::prelude::*;

use crate::amount::{checked_sum, lemma_sum64_nonneg, sum64};
use crate::entity::{
    Deposit, DepositInput, Digest, MinimalBody, MinimalHeader, MinimalInput, Outpoint, Output,
    RefundInput, Withdrawal,
};
use crate::oracle::MainState;
use crate::projection::{
    amounts_of_deposits, amounts_of_outputs, amounts_of_pairs, amounts_of_withdrawals,
    created_outpoints, created_pairs, deposit_amounts, flat_deposit_inputs, flat_inputs,
    flat_refund_inputs, flat_withdrawals, keys_of_pairs, outpoints_of_inputs, output_amounts,
    pair_amounts, refs_of_deposit_inputs, refs_of_refund_inputs, withdrawal_amounts,
};
use crate::table::{lemma_lookup_is_none, lemma_lookup_push, lemma_lookup_remove, lookup,
    unique_keys};

verus! {

broadcast use vstd::seq_lib::lemma_seq_contains_after_push;

/// The authoritative ledger state: the unspent outpoints, and an index
/// holding the record of every output ever created — spent or not — so that
/// a disconnect can restore spent flags without recomputation.
#[derive(Clone, Debug, PartialEq, Eq)]
pub struct MinimalState {
    pub utxos: Vec<Outpoint>,
    pub outputs: Vec<(Outpoint, Output)>,
}

impl MinimalState {
    /// The representation invariant: the unspent set holds each outpoint at
    /// most once, and the output index binds each outpoint at most once.
    pub open spec fn wf(self) -> bool {
        &&& self.utxos@.no_duplicates()
        &&& unique_keys(self.outputs@)
    }

    /// The unspent set, read as a set.
    pub open spec fn utxo_set(self) -> Set<Outpoint> {
        Set::new(|op: Outpoint| self.utxos@.contains(op))
    }

    /// The output index, read as a map.
    pub open spec fn output_index(self) -> Map<Outpoint, Output> {
        Map::new(
            |k: Outpoint| lookup(self.outputs@, k) is Some,
            |k: Outpoint| lookup(self.outputs@, k).unwrap(),
        )
    }

    /// Looks an outpoint up in the output index.
    #[verifier::loop_isolation(false)]
    pub fn get_output(&self, outpoint: &Outpoint) -> (r: Option<Output>)
        ensures
            r == lookup(self.outputs@, *outpoint),
    {
        let mut i: usize = self.outputs.len();
        assert(self.outputs@.take(i as int) =~= self.outputs@);
        while i > 0
            invariant
                i <= self.outputs.len(),
                lookup(self.outputs@, *outpoint) == lookup(
                    self.outputs@.take(i as int),
                    *outpoint,
                ),
            decreases i,
        {
            i = i - 1;
            if self.outputs[i].0 == *outpoint {
                assert(self.outputs@.take(i + 1).last() == self.outputs@[i as int]);
                return Some(self.outputs[i].1);
            }
            assert(self.outputs@.take(i + 1).last() == self.outputs@[i as int]);
            assert(self.outputs@.take(i + 1).drop_last() =~= self.outputs@.take(i as int));
        }
        assert(self.outputs@.take(0) =~= Seq::<(Outpoint, Output)>::empty());
        None
    }
}

impl Default for MinimalState {
    /// The genesis state: nothing unspent, nothing ever created.
    fn default() -> (r: Self)
        ensures
            r.utxos@.len() == 0,
            r.outputs@.len() == 0,
            r.wf(),
    {
        MinimalState { utxos: Vec::new(), outputs: Vec::new() }
    }
}

/// Adds an outpoint to the unspent set, a no-op when already present.
#[verifier::loop_isolation(false)]
fn utxo_insert(utxos: &mut Vec<Outpoint>, op: Outpoint)
    requires
        old(utxos)@.no_duplicates(),
    ensures
        final(utxos)@.no_duplicates(),
        forall|x: Outpoint|
            final(utxos)@.contains(x) <==> (old(utxos)@.contains(x) || x == op),
{
    let mut i: usize = 0;
    while i < utxos.len()
        invariant
            i <= utxos.len(),
            utxos@ == old(utxos)@,
            forall|j: int| 0 <= j < i ==> utxos@[j] != op,
        decreases utxos.len() - i,
    {
        if utxos[i] == op {
            assert(utxos@.contains(op));
            return ;
        }
        i = i + 1;
    }
    assert(forall|j: int| 0 <= j < utxos@.len() ==> utxos@[j] != op);
    utxos.push(op);
}

/// Removes an outpoint from the unspent set, a no-op when absent.
#[verifier::loop_isolation(false)]
fn utxo_remove(utxos: &mut Vec<Outpoint>, op: &Outpoint)
    requires
        old(utxos)@.no_duplicates(),
    ensures
        final(utxos)@.no_duplicates(),
        forall|x: Outpoint|
            final(utxos)@.contains(x) <==> (old(utxos)@.contains(x) && x != *op),
{
    let mut i: usize = 0;
    while i < utxos.len()
        invariant
            i <= utxos.len(),
            utxos@ == old(utxos)@,
            forall|j: int| 0 <= j < i ==> utxos@[j] != *op,
        decreases utxos.len() - i,
    {
        if utxos[i] == *op {
            let ghost prev = utxos@;
            let ghost gi = i as int;
            utxos.remove(i);
            proof {
                prev.remove_ensures(gi);
                assert forall|x: int, y: int|
                    0 <= x < y < utxos@.len() implies utxos@[x] != utxos@[y] by {
                    let x0: int = if x < gi { x } else { x + 1 };
                    let y0: int = if y < gi { y } else { y + 1 };
                    assert(utxos@[x] == prev[x0]);
                    assert(utxos@[y] == prev[y0]);
                }
                assert forall|x: Outpoint|
                    utxos@.contains(x) <==> (prev.contains(x) && x != *op) by {
                    if utxos@.contains(x) {
                        let idx = choose|idx: int| 0 <= idx < utxos@.len() && utxos@[idx] == x;
                        let idx0: int = if idx < gi { idx } else { idx + 1 };
                        assert(prev[idx0] == x);
                        assert(idx0 != gi);
                        assert(prev[gi] == *op);
                        assert(x != *op);
                    }
                    if prev.contains(x) && x != *op {
                        let idx0 = choose|idx0: int| 0 <= idx0 < prev.len() && prev[idx0] == x;
                        if idx0 < gi {
                            assert(utxos@[idx0] == x);
                        } else {
                            assert(utxos@[idx0 - 1] == x);
                        }
                    }
                }
            }
            return ;
        }
        i = i + 1;
    }
    assert forall|x: Outpoint|
        utxos@.contains(x) <==> (old(utxos)@.contains(x) && x != *op) by {
        if utxos@.contains(x) && x == *op {
            let idx = choose|idx: int| 0 <= idx < utxos@.len() && utxos@[idx] == x;
            assert(utxos@[idx] != *op);
        }
    }
}

/// Binds an outpoint to an output record in the index, replacing any
/// earlier binding of the same outpoint.
#[verifier::loop_isolation(false)]
fn index_put(index: &mut Vec<(Outpoint, Output)>, op: Outpoint, out: Output)
    requires
        unique_keys(old(index)@),
    ensures
        unique_keys(final(index)@),
        forall|k: Outpoint|
            lookup(final(index)@, k) == (if k == op {
                Some(out)
            } else {
                lookup(old(index)@, k)
            }),
{
    let mut i: usize = 0;
    while i < index.len()
        invariant
            i <= index.len(),
            index@ == old(index)@,
            forall|j: int| 0 <= j < i ==> index@[j].0 != op,
        decreases index.len() - i,
    {
        if index[i].0 == op {
            let ghost prev = index@;
            let ghost gi = i as int;
            proof {
                lemma_lookup_remove(prev, gi);
            }
            index.remove(i);
            let ghost mid = index@;
            index.push((op, out));
            proof {
                lemma_lookup_push(mid, op, out);
                lemma_lookup_is_none(mid, op);
                assert forall|x: int, y: int|
                    0 <= x < y < index@.len() implies index@[x].0 != index@[y].0 by {
                    if y < index@.len() - 1 {
                        assert(mid[x].0 != mid[y].0);
                    } else {
                        assert(mid[x].0 != op);
                    }
                }
            }
            return ;
        }
        i = i + 1;
    }
    let ghost prev = index@;
    proof {
        lemma_lookup_is_none(prev, op);
    }
    index.push((op, out));
    proof {
        lemma_lookup_push(prev, op, out);
        assert forall|x: int, y: int|
            0 <= x < y < index@.len() implies index@[x].0 != index@[y].0 by {
            if y < index@.len() - 1 {
                assert(prev[x].0 != prev[y].0);
            } else {
                assert(prev[x].0 != op);
            }
        }
    }
}

/// Unbinds an outpoint in the index, a no-op when absent.
#[verifier::loop_isolation(false)]
fn index_remove(index: &mut Vec<(Outpoint, Output)>, op: &Outpoint)
    requires
        unique_keys(old(index)@),
    ensures
        unique_keys(final(index)@),
        forall|k: Outpoint|
            lookup(final(index)@, k) == (if k == *op {
                None::<Output>
            } else {
                lookup(old(index)@, k)
            }),
{
    let mut i: usize = 0;
    while i < index.len()
        invariant
            i <= index.len(),
            index@ == old(index)@,
            forall|j: int| 0 <= j < i ==> index@[j].0 != *op,
        decreases index.len() - i,
    {
        if index[i].0 == *op {
            proof {
                lemma_lookup_remove(index@, i as int);
            }
            index.remove(i);
            return ;
        }
        i = i + 1;
    }
    proof {
        lemma_lookup_is_none(index@, *op);
    }
}

/// The outpoints a body spends.
pub open spec fn spent_outpoints(body: MinimalBody) -> Seq<Outpoint> {
    outpoints_of_inputs(flat_inputs(body.transactions@))
}

/// How a connected state relates to the state it was connected onto: the
/// spent outpoints leave the unspent set, the created outpoints enter it,
/// and the created records are bound in the output index (a later created
/// binding winning where a body ever repeated an outpoint).
pub open spec fn connect_rel(
    pre: MinimalState,
    post: MinimalState,
    header: MinimalHeader,
    body: MinimalBody,
) -> bool {
    &&& (forall|x: Outpoint| #![trigger post.utxos@.contains(x)]
        post.utxos@.contains(x) <==> ((pre.utxos@.contains(x) && !spent_outpoints(body).contains(
            x,
        )) || created_outpoints(header.block_hash, body).contains(x)))
    &&& (forall|k: Outpoint| #![trigger lookup(post.outputs@, k)]
        lookup(post.outputs@, k) == (if lookup(created_pairs(header.block_hash, body), k) is Some {
            lookup(created_pairs(header.block_hash, body), k)
        } else {
            lookup(pre.outputs@, k)
        }))
}

/// How a disconnected state relates to the state it was disconnected from:
/// the spent outpoints return to the unspent set, the created outpoints
/// leave it, and the created records leave the output index.
pub open spec fn disconnect_rel(
    pre: MinimalState,
    post: MinimalState,
    header: MinimalHeader,
    body: MinimalBody,
) -> bool {
    &&& (forall|x: Outpoint| #![trigger post.utxos@.contains(x)]
        post.utxos@.contains(x) <==> ((pre.utxos@.contains(x) || spent_outpoints(body).contains(
            x,
        )) && !created_outpoints(header.block_hash, body).contains(x)))
    &&& (forall|k: Outpoint| #![trigger lookup(post.outputs@, k)]
        lookup(post.outputs@, k) == (if created_outpoints(header.block_hash, body).contains(k) {
            None::<Output>
        } else {
            lookup(pre.outputs@, k)
        }))
}

impl MinimalState {
    /// Applies a block: removes every spent outpoint from the unspent set,
    /// then adds every created outpoint to the unspent set and its record
    /// to the output index.
    ///
    /// Assumes `validate_block` has already succeeded for this block on
    /// this state; called with anything else it still terminates with a
    /// well-formed state, described exactly by `connect_rel`, but that
    /// state need not be meaningful.
    #[verifier::loop_isolation(false)]
    pub fn connect(&mut self, header: &MinimalHeader, body: &MinimalBody) -> (r: Result<(), ()>)
        requires
            old(self).wf(),
        ensures
            final(self).wf(),
            r is Ok,
            connect_rel(*old(self), *final(self), *header, *body),
    {
        let inputs = body.inputs();
        let mut i: usize = 0;
        assert(outpoints_of_inputs(inputs@.take(0)) =~= Seq::<Outpoint>::empty());
        while i < inputs.len()
            invariant
                i <= inputs.len(),
                self.outputs@ == old(self).outputs@,
                self.utxos@.no_duplicates(),
                forall|x: Outpoint|
                    self.utxos@.contains(x) <==> (old(self).utxos@.contains(x)
                        && !outpoints_of_inputs(inputs@.take(i as int)).contains(x)),
            decreases inputs.len() - i,
        {
            utxo_remove(&mut self.utxos, &inputs[i].outpoint);
            assert(outpoints_of_inputs(inputs@.take(i + 1)) =~= outpoints_of_inputs(
                inputs@.take(i as int),
            ).push(inputs@[i as int].outpoint));
            i = i + 1;
        }
        assert(inputs@.take(inputs@.len() as int) =~= inputs@);
        let created = body.outputs(header);
        let mut j: usize = 0;
        assert(keys_of_pairs(created@.take(0)) =~= Seq::<Outpoint>::empty());
        while j < created.len()
            invariant
                j <= created.len(),
                self.utxos@.no_duplicates(),
                unique_keys(self.outputs@),
                forall|x: Outpoint| #![trigger old(self).utxos@.contains(x)]
                    self.utxos@.contains(x) <==> ((old(self).utxos@.contains(x)
                        && !spent_outpoints(*body).contains(x)) || keys_of_pairs(
                        created@.take(j as int),
                    ).contains(x)),
                forall|k: Outpoint| #![trigger lookup(old(self).outputs@, k)]
                    lookup(self.outputs@, k) == (if lookup(created@.take(j as int), k) is Some {
                        lookup(created@.take(j as int), k)
                    } else {
                        lookup(old(self).outputs@, k)
                    }),
            decreases created.len() - j,
        {
            let p = created[j];
            let ghost before = self.utxos@;
            let ghost outs_before = self.outputs@;
            let ghost jj = j as int;
            utxo_insert(&mut self.utxos, p.0);
            index_put(&mut self.outputs, p.0, p.1);
            j = j + 1;
            proof {
                assert(keys_of_pairs(created@.take(j as int)) =~= keys_of_pairs(
                    created@.take(jj),
                ).push(p.0));
                assert(created@.take(j as int).drop_last() =~= created@.take(jj));
                assert(created@.take(j as int).last() == p);
                assert forall|x: Outpoint| #![trigger old(self).utxos@.contains(x)]
                    self.utxos@.contains(x) <==> ((old(self).utxos@.contains(x)
                        && !spent_outpoints(*body).contains(x)) || keys_of_pairs(
                        created@.take(j as int),
                    ).contains(x)) by {
                    assert(self.utxos@.contains(x) <==> (before.contains(x) || x == p.0));
                    assert(keys_of_pairs(created@.take(jj)).push(p.0).contains(x) <==> (
                    keys_of_pairs(created@.take(jj)).contains(x) || x == p.0));
                    assert(before.contains(x) <==> ((old(self).utxos@.contains(x)
                        && !spent_outpoints(*body).contains(x)) || keys_of_pairs(
                        created@.take(jj),
                    ).contains(x)));
                }
                assert forall|k: Outpoint| #![trigger lookup(old(self).outputs@, k)]
                    lookup(self.outputs@, k) == (if lookup(created@.take(j as int), k) is Some {
                        lookup(created@.take(j as int), k)
                    } else {
                        lookup(old(self).outputs@, k)
                    }) by {
                    assert(lookup(self.outputs@, k) == (if k == p.0 {
                        Some(p.1)
                    } else {
                        lookup(outs_before, k)
                    }));
                    assert(lookup(outs_before, k) == (if lookup(created@.take(jj), k) is Some {
                        lookup(created@.take(jj), k)
                    } else {
                        lookup(old(self).outputs@, k)
                    }));
                }
            }
        }
        assert(created@.take(created@.len() as int) =~= created@);
        Ok(())
    }

    /// Undoes a previously connected block, assuming blocks are undone in
    /// exact reverse application order: re-adds every spent outpoint to the
    /// unspent set, then removes every outpoint the block created from the
    /// unspent set and from the output index.
    ///
    /// Called out of that discipline it still terminates with a well-formed
    /// state, described exactly by `disconnect_rel`.
    #[verifier::loop_isolation(false)]
    #[verifier::rlimit(100)]
    #[verifier::spinoff_prover]
    pub fn disconnect(&mut self, header: &MinimalHeader, body: &MinimalBody) -> (r: Result<
        (),
        (),
    >)
        requires
            old(self).wf(),
        ensures
            final(self).wf(),
            r is Ok,
            disconnect_rel(*old(self), *final(self), *header, *body),
    {
        let ghost u0 = self.utxos@;
        let ghost o0 = self.outputs@;
        let inputs = body.inputs();
        let mut i: usize = 0;
        assert(outpoints_of_inputs(inputs@.take(0)) =~= Seq::<Outpoint>::empty());
        while i < inputs.len()
            invariant
                i <= inputs.len(),
                self.outputs@ == o0,
                self.utxos@.no_duplicates(),
                forall|x: Outpoint| #![trigger u0.contains(x)]
                    self.utxos@.contains(x) <==> (u0.contains(x)
                        || outpoints_of_inputs(inputs@.take(i as int)).contains(x)),
            decreases inputs.len() - i,
        {
            let ghost before = self.utxos@;
            let ghost ii = i as int;
            utxo_insert(&mut self.utxos, inputs[i].outpoint);
            i = i + 1;
            proof {
                assert(outpoints_of_inputs(inputs@.take(i as int)) =~= outpoints_of_inputs(
                    inputs@.take(ii),
                ).push(inputs@[ii].outpoint));
                assert forall|x: Outpoint| #![trigger u0.contains(x)]
                    self.utxos@.contains(x) <==> (u0.contains(x) || outpoints_of_inputs(
                        inputs@.take(i as int),
                    ).contains(x)) by {
                    assert(before.contains(x) <==> (u0.contains(x) || outpoints_of_inputs(
                        inputs@.take(ii),
                    ).contains(x)));
                    assert(self.utxos@.contains(x) <==> (before.contains(x) || x == inputs@[
                        ii
                    ].outpoint));
                    assert(outpoints_of_inputs(inputs@.take(ii)).push(
                        inputs@[ii].outpoint,
                    ).contains(x) <==> (outpoints_of_inputs(inputs@.take(ii)).contains(x) || x
                        == inputs@[ii].outpoint));
                }
            }
        }
        assert(inputs@.take(inputs@.len() as int) =~= inputs@);
        let created = body.outputs(header);
        let mut j: usize = 0;
        assert(keys_of_pairs(created@.take(0)) =~= Seq::<Outpoint>::empty());
        proof {
            assert forall|x: Outpoint| #![trigger u0.contains(x)]
                self.utxos@.contains(x) <==> ((u0.contains(x) || spent_outpoints(
                    *body,
                ).contains(x)) && !keys_of_pairs(created@.take(0)).contains(x)) by {
                assert(self.utxos@.contains(x) <==> (u0.contains(x) || outpoints_of_inputs(
                    inputs@,
                ).contains(x)));
                assert(!keys_of_pairs(created@.take(0)).contains(x));
            }
        }
        while j < created.len()
            invariant
                j <= created.len(),
                self.utxos@.no_duplicates(),
                unique_keys(self.outputs@),
                forall|x: Outpoint| #![trigger u0.contains(x)]
                    self.utxos@.contains(x) <==> ((u0.contains(x)
                        || spent_outpoints(*body).contains(x)) && !keys_of_pairs(
                        created@.take(j as int),
                    ).contains(x)),
                forall|k: Outpoint| #![trigger lookup(o0, k)]
                    lookup(self.outputs@, k) == (if keys_of_pairs(
                        created@.take(j as int),
                    ).contains(k) {
                        None::<Output>
                    } else {
                        lookup(o0, k)
                    }),
            decreases created.len() - j,
        {
            let p = created[j];
            let ghost before = self.utxos@;
            let ghost outs_before = self.outputs@;
            let ghost jj = j as int;
            utxo_remove(&mut self.utxos, &p.0);
            index_remove(&mut self.outputs, &p.0);
            j = j + 1;
            proof {
                assert(keys_of_pairs(created@.take(j as int)) =~= keys_of_pairs(
                    created@.take(jj),
                ).push(p.0));
                assert forall|x: Outpoint| #![trigger u0.contains(x)]
                    self.utxos@.contains(x) <==> ((u0.contains(x)
                        || spent_outpoints(*body).contains(x)) && !keys_of_pairs(
                        created@.take(j as int),
                    ).contains(x)) by {
                    assert(before.contains(x) <==> ((u0.contains(x)
                        || spent_outpoints(*body).contains(x)) && !keys_of_pairs(
                        created@.take(jj),
                    ).contains(x)));
                    assert(self.utxos@.contains(x) <==> (before.contains(x) && x != p.0));
                    assert(keys_of_pairs(created@.take(jj)).push(p.0).contains(x) <==> (
                    keys_of_pairs(created@.take(jj)).contains(x) || x == p.0));
                }
                assert forall|k: Outpoint| #![trigger lookup(o0, k)]
                    lookup(self.outputs@, k) == (if keys_of_pairs(
                        created@.take(j as int),
                    ).contains(k) {
                        None::<Output>
                    } else {
                        lookup(o0, k)
                    }) by {
                    assert(keys_of_pairs(created@.take(jj)).push(p.0).contains(k) <==> (
                    keys_of_pairs(created@.take(jj)).contains(k) || k == p.0));
                    assert(lookup(self.outputs@, k) == (if k == p.0 {
                        None::<Output>
                    } else {
                        lookup(outs_before, k)
                    }));
                    assert(lookup(outs_before, k) == (if keys_of_pairs(
                        created@.take(jj),
                    ).contains(k) {
                        None::<Output>
                    } else {
                        lookup(o0, k)
                    }));
                }
            }
        }
        assert(created@.take(created@.len() as int) =~= created@);
        Ok(())
    }
}

/// Every spend references an outpoint the output index knows.
pub open spec fn all_inputs_resolve(state: MinimalState, ins: Seq<MinimalInput>) -> bool {
    forall|i: int|
        0 <= i < ins.len() ==> lookup(state.outputs@, (#[trigger] ins[i]).outpoint) is Some
}

/// The output each spend consumes, in spend order.
pub open spec fn resolved_spent_outputs(state: MinimalState, ins: Seq<MinimalInput>) -> Seq<
    Output,
> {
    ins.map_values(|inp: MinimalInput| lookup(state.outputs@, inp.outpoint).unwrap())
}

/// Every deposit claim references a deposit the oracle knows.
pub open spec fn all_deposits_resolve(main: MainState, deps: Seq<DepositInput>) -> bool {
    forall|i: int|
        0 <= i < deps.len() ==> lookup(main.deposits@, (#[trigger] deps[i]).outpoint) is Some
}

/// The deposit each claim consumes, in claim order.
pub open spec fn resolved_deposits(main: MainState, deps: Seq<DepositInput>) -> Seq<Deposit> {
    deps.map_values(|inp: DepositInput| lookup(main.deposits@, inp.outpoint).unwrap())
}

/// Every refund claim references a withdrawal the oracle knows.
pub open spec fn all_refunds_resolve(main: MainState, refs: Seq<RefundInput>) -> bool {
    forall|i: int|
        0 <= i < refs.len() ==> lookup(main.withdrawals@, (#[trigger] refs[i]).outpoint) is Some
}

/// The withdrawal each refund claim reclaims, in claim order.
pub open spec fn resolved_refunds(main: MainState, refs: Seq<RefundInput>) -> Seq<Withdrawal> {
    refs.map_values(|inp: RefundInput| lookup(main.withdrawals@, inp.outpoint).unwrap())
}

/// Every spend's signature satisfies the spent output's address.
pub open spec fn inputs_authorized(state: MinimalState, ins: Seq<MinimalInput>) -> bool {
    forall|i: int|
        0 <= i < ins.len() ==> lookup(
            state.outputs@,
            (#[trigger] ins[i]).outpoint,
        ).unwrap().address.spec_check_signature(ins[i].signature)
}

/// Every deposit claim's signature satisfies the deposit's address.
pub open spec fn deposits_authorized(main: MainState, deps: Seq<DepositInput>) -> bool {
    forall|i: int|
        0 <= i < deps.len() ==> lookup(
            main.deposits@,
            (#[trigger] deps[i]).outpoint,
        ).unwrap().address.spec_check_signature(deps[i].signature)
}

/// Every refund claim's signature satisfies the failed withdrawal's address.
pub open spec fn refunds_authorized(main: MainState, refs: Seq<RefundInput>) -> bool {
    forall|i: int|
        0 <= i < refs.len() ==> lookup(
            main.withdrawals@,
            (#[trigger] refs[i]).outpoint,
        ).unwrap().address.spec_check_signature(refs[i].signature)
}

/// The value the block consumes from outputs already inside the ledger.
pub open spec fn spent_sum(state: MinimalState, ins: Seq<MinimalInput>) -> int {
    sum64(amounts_of_outputs(resolved_spent_outputs(state, ins)))
}

/// The value the block claims from main-chain deposits.
pub open spec fn deposit_sum(main: MainState, deps: Seq<DepositInput>) -> int {
    sum64(amounts_of_deposits(resolved_deposits(main, deps)))
}

/// The value the block reclaims from failed withdrawals.
pub open spec fn refund_sum(main: MainState, refs: Seq<RefundInput>) -> int {
    sum64(amounts_of_withdrawals(resolved_refunds(main, refs)))
}

/// The value of every output the block creates, coinbase included.
pub open spec fn created_sum(block_hash: Digest, body: MinimalBody) -> int {
    sum64(amounts_of_pairs(created_pairs(block_hash, body)))
}

/// The value the block sends back to the main chain.
pub open spec fn withdrawal_sum(body: MinimalBody) -> int {
    sum64(amounts_of_withdrawals(flat_withdrawals(body.transactions@)))
}

/// The declared coinbase reward of the block.
pub open spec fn coinbase_sum(body: MinimalBody) -> int {
    sum64(amounts_of_outputs(body.coinbase@))
}

/// Everything the block consumes: spends, deposit claims, refund claims.
pub open spec fn total_input_sum(state: MinimalState, main: MainState, body: MinimalBody) -> int {
    spent_sum(state, flat_inputs(body.transactions@)) + deposit_sum(
        main,
        flat_deposit_inputs(body.transactions@),
    ) + refund_sum(main, flat_refund_inputs(body.transactions@))
}

/// Everything the block produces: new outputs (coinbase included) and new
/// withdrawals.
pub open spec fn total_output_sum(block_hash: Digest, body: MinimalBody) -> int {
    created_sum(block_hash, body) + withdrawal_sum(body)
}

/// Conservation: the coinbase reward is exactly the net value the block
/// introduces beyond what it consumed. Amounts are 64-bit; a block whose
/// total production does not fit in 64 bits is rejected rather than
/// wrapped, and so, by this equation, is one whose production falls short
/// of its consumption.
pub open spec fn conservation_holds(
    state: MinimalState,
    main: MainState,
    header: MinimalHeader,
    body: MinimalBody,
) -> bool {
    &&& total_output_sum(header.block_hash, body) <= u64::MAX
    &&& coinbase_sum(body) + total_input_sum(state, main, body) == total_output_sum(
        header.block_hash,
        body,
    )
}

/// What it means for a block to be acceptable on a given ledger state and
/// main-chain oracle: no reference is claimed twice, every reference
/// resolves, every claim is authorized, and value is conserved.
pub open spec fn spec_valid_block(
    state: MinimalState,
    main: MainState,
    header: MinimalHeader,
    body: MinimalBody,
) -> bool {
    let ins = flat_inputs(body.transactions@);
    let deps = flat_deposit_inputs(body.transactions@);
    let refs = flat_refund_inputs(body.transactions@);
    &&& outpoints_of_inputs(ins).no_duplicates()
    &&& refs_of_deposit_inputs(deps).no_duplicates()
    &&& refs_of_refund_inputs(refs).no_duplicates()
    &&& all_inputs_resolve(state, ins)
    &&& all_deposits_resolve(main, deps)
    &&& all_refunds_resolve(main, refs)
    &&& inputs_authorized(state, ins)
    &&& deposits_authorized(main, deps)
    &&& refunds_authorized(main, refs)
    &&& conservation_holds(state, main, header, body)
}

/// Reports whether two spends in the flattened input list reference the
/// same outpoint.
#[verifier::loop_isolation(false)]
fn has_duplicate_spends(v: &Vec<MinimalInput>) -> (r: bool)
    ensures
        r == !outpoints_of_inputs(v@).no_duplicates(),
{
    let mut i: usize = 0;
    while i < v.len()
        invariant
            i <= v.len(),
            forall|x: int, y: int|
                0 <= x < i && x < y < v@.len() ==> v@[x].outpoint != v@[y].outpoint,
        decreases v.len() - i,
    {
        let mut j: usize = i + 1;
        while j < v.len()
            invariant
                i < j <= v.len(),
                forall|y: int| i < y < j ==> v@[i as int].outpoint != v@[y].outpoint,
            decreases v.len() - j,
        {
            if v[i].outpoint == v[j].outpoint {
                proof {
                    assert(outpoints_of_inputs(v@)[i as int] == v@[i as int].outpoint);
                    assert(outpoints_of_inputs(v@)[j as int] == v@[j as int].outpoint);
                    assert(!outpoints_of_inputs(v@).no_duplicates());
                }
                return true;
            }
            j = j + 1;
        }
        i = i + 1;
    }
    proof {
        assert forall|x: int, y: int|
            0 <= x < v@.len() && 0 <= y < v@.len() && x != y implies outpoints_of_inputs(
            v@,
        )[x] != outpoints_of_inputs(v@)[y] by {
            assert(outpoints_of_inputs(v@)[x] == v@[x].outpoint);
            assert(outpoints_of_inputs(v@)[y] == v@[y].outpoint);
            if x < y {
                assert(v@[x].outpoint != v@[y].outpoint);
            } else {
                assert(v@[y].outpoint != v@[x].outpoint);
            }
        }
    }
    false
}

/// Reports whether two deposit claims reference the same deposit.
#[verifier::loop_isolation(false)]
fn has_duplicate_deposit_refs(v: &Vec<DepositInput>) -> (r: bool)
    ensures
        r == !refs_of_deposit_inputs(v@).no_duplicates(),
{
    let mut i: usize = 0;
    while i < v.len()
        invariant
            i <= v.len(),
            forall|x: int, y: int|
                0 <= x < i && x < y < v@.len() ==> v@[x].outpoint != v@[y].outpoint,
        decreases v.len() - i,
    {
        let mut j: usize = i + 1;
        while j < v.len()
            invariant
                i < j <= v.len(),
                forall|y: int| i < y < j ==> v@[i as int].outpoint != v@[y].outpoint,
            decreases v.len() - j,
        {
            if v[i].outpoint == v[j].outpoint {
                proof {
                    assert(refs_of_deposit_inputs(v@)[i as int] == v@[i as int].outpoint);
                    assert(refs_of_deposit_inputs(v@)[j as int] == v@[j as int].outpoint);
                    assert(!refs_of_deposit_inputs(v@).no_duplicates());
                }
                return true;
            }
            j = j + 1;
        }
        i = i + 1;
    }
    proof {
        assert forall|x: int, y: int|
            0 <= x < v@.len() && 0 <= y < v@.len() && x != y implies refs_of_deposit_inputs(
            v@,
        )[x] != refs_of_deposit_inputs(v@)[y] by {
            assert(refs_of_deposit_inputs(v@)[x] == v@[x].outpoint);
            assert(refs_of_deposit_inputs(v@)[y] == v@[y].outpoint);
            if x < y {
                assert(v@[x].outpoint != v@[y].outpoint);
            } else {
                assert(v@[y].outpoint != v@[x].outpoint);
            }
        }
    }
    false
}

/// Reports whether two refund claims reference the same withdrawal.
#[verifier::loop_isolation(false)]
fn has_duplicate_refund_refs(v: &Vec<RefundInput>) -> (r: bool)
    ensures
        r == !refs_of_refund_inputs(v@).no_duplicates(),
{
    let mut i: usize = 0;
    while i < v.len()
        invariant
            i <= v.len(),
            forall|x: int, y: int|
                0 <= x < i && x < y < v@.len() ==> v@[x].outpoint != v@[y].outpoint,
        decreases v.len() - i,
    {
        let mut j: usize = i + 1;
        while j < v.len()
            invariant
                i < j <= v.len(),
                forall|y: int| i < y < j ==> v@[i as int].outpoint != v@[y].outpoint,
            decreases v.len() - j,
        {
            if v[i].outpoint == v[j].outpoint {
                proof {
                    assert(refs_of_refund_inputs(v@)[i as int] == v@[i as int].outpoint);
                    assert(refs_of_refund_inputs(v@)[j as int] == v@[j as int].outpoint);
                    assert(!refs_of_refund_inputs(v@).no_duplicates());
                }
                return true;
            }
            j = j + 1;
        }
        i = i + 1;
    }
    proof {
        assert forall|x: int, y: int|
            0 <= x < v@.len() && 0 <= y < v@.len() && x != y implies refs_of_refund_inputs(
            v@,
        )[x] != refs_of_refund_inputs(v@)[y] by {
            assert(refs_of_refund_inputs(v@)[x] == v@[x].outpoint);
            assert(refs_of_refund_inputs(v@)[y] == v@[y].outpoint);
            if x < y {
                assert(v@[x].outpoint != v@[y].outpoint);
            } else {
                assert(v@[y].outpoint != v@[x].outpoint);
            }
        }
    }
    false
}

/// Resolves every deposit claim against the oracle, all or nothing.
#[verifier::loop_isolation(false)]
fn resolve_deposits(main: &MainState, deps: &Vec<DepositInput>) -> (r: Option<Vec<Deposit>>)
    ensures
        (r is Some) == all_deposits_resolve(*main, deps@),
        r is Some ==> r.unwrap()@ == resolved_deposits(*main, deps@),
{
    let mut out: Vec<Deposit> = Vec::new();
    let mut i: usize = 0;
    while i < deps.len()
        invariant
            i <= deps.len(),
            out@.len() == i,
            forall|k: int|
                0 <= k < i ==> lookup(main.deposits@, (#[trigger] deps@[k]).outpoint) is Some,
            forall|k: int|
                0 <= k < i ==> out@[k] == lookup(main.deposits@, (#[trigger] deps@[k]).outpoint).unwrap(),
        decreases deps.len() - i,
    {
        match main.get_deposit(&deps[i].outpoint) {
            Some(d) => {
                out.push(d);
            },
            None => {
                assert(!all_deposits_resolve(*main, deps@));
                return None;
            },
        }
        i = i + 1;
    }
    assert(out@ =~= resolved_deposits(*main, deps@));
    Some(out)
}

/// Resolves every refund claim against the oracle, all or nothing.
#[verifier::loop_isolation(false)]
fn resolve_refunds(main: &MainState, refs: &Vec<RefundInput>) -> (r: Option<Vec<Withdrawal>>)
    ensures
        (r is Some) == all_refunds_resolve(*main, refs@),
        r is Some ==> r.unwrap()@ == resolved_refunds(*main, refs@),
{
    let mut out: Vec<Withdrawal> = Vec::new();
    let mut i: usize = 0;
    while i < refs.len()
        invariant
            i <= refs.len(),
            out@.len() == i,
            forall|k: int|
                0 <= k < i ==> lookup(main.withdrawals@, (#[trigger] refs@[k]).outpoint) is Some,
            forall|k: int|
                0 <= k < i ==> out@[k] == lookup(
                    main.withdrawals@,
                    (#[trigger] refs@[k]).outpoint,
                ).unwrap(),
        decreases refs.len() - i,
    {
        match main.get_withdrawal(&refs[i].outpoint) {
            Some(w) => {
                out.push(w);
            },
            None => {
                assert(!all_refunds_resolve(*main, refs@));
                return None;
            },
        }
        i = i + 1;
    }
    assert(out@ =~= resolved_refunds(*main, refs@));
    Some(out)
}

impl MinimalState {
    /// Resolves every spend against the output index, all or nothing.
    #[verifier::loop_isolation(false)]
    fn resolve_spent(&self, inputs: &Vec<MinimalInput>) -> (r: Option<Vec<Output>>)
        ensures
            (r is Some) == all_inputs_resolve(*self, inputs@),
            r is Some ==> r.unwrap()@ == resolved_spent_outputs(*self, inputs@),
    {
        let mut out: Vec<Output> = Vec::new();
        let mut i: usize = 0;
        while i < inputs.len()
            invariant
                i <= inputs.len(),
                out@.len() == i,
                forall|k: int|
                    0 <= k < i ==> lookup(self.outputs@, (#[trigger] inputs@[k]).outpoint) is Some,
                forall|k: int|
                    0 <= k < i ==> out@[k] == lookup(
                        self.outputs@,
                        (#[trigger] inputs@[k]).outpoint,
                    ).unwrap(),
            decreases inputs.len() - i,
        {
            match self.get_output(&inputs[i].outpoint) {
                Some(o) => {
                    out.push(o);
                },
                None => {
                    assert(!all_inputs_resolve(*self, inputs@));
                    return None;
                },
            }
            i = i + 1;
        }
        assert(out@ =~= resolved_spent_outputs(*self, inputs@));
        Some(out)
    }

    /// The validation engine: decides whether a candidate block may be
    /// connected onto this state, given the main-chain oracle. Pure — it
    /// reads the state and mutates nothing — and exactly the predicate
    /// `spec_valid_block`: it accepts if and only if no reference is
    /// claimed twice, every spend resolves in the output index, every
    /// deposit and refund claim resolves at the oracle, every claim's
    /// signature satisfies the resolved address, and the coinbase equals
    /// the block's production minus its consumption, with nothing wrapped
    /// or truncated.
    #[verifier::loop_isolation(false)]
    pub fn validate_block(
        &self,
        main_state: &MainState,
        header: &MinimalHeader,
        body: &MinimalBody,
    ) -> (r: bool)
        ensures
            r == spec_valid_block(*self, *main_state, *header, *body),
    {
        let inputs = body.inputs();
        let deposit_inputs = body.deposit_inputs();
        let refund_inputs = body.refund_inputs();

        if has_duplicate_spends(&inputs) {
            return false;
        }
        if has_duplicate_deposit_refs(&deposit_inputs) {
            return false;
        }
        if has_duplicate_refund_refs(&refund_inputs) {
            return false;
        }

        let spent_outputs = match self.resolve_spent(&inputs) {
            Some(v) => v,
            None => {
                return false;
            },
        };
        let claimed_deposits = match resolve_deposits(main_state, &deposit_inputs) {
            Some(v) => v,
            None => {
                return false;
            },
        };
        let refunded_withdrawals = match resolve_refunds(main_state, &refund_inputs) {
            Some(v) => v,
            None => {
                return false;
            },
        };

        let mut i: usize = 0;
        assert(spent_outputs@.len() == inputs@.len());
        while i < inputs.len()
            invariant
                i <= inputs.len(),
                forall|k: int|
                    0 <= k < i ==> lookup(
                        self.outputs@,
                        (#[trigger] inputs@[k]).outpoint,
                    ).unwrap().address.spec_check_signature(inputs@[k].signature),
            decreases inputs.len() - i,
        {
            if !spent_outputs[i].address.check_signature(&inputs[i].signature) {
                proof {
                    assert(spent_outputs@[i as int] == lookup(
                        self.outputs@,
                        inputs@[i as int].outpoint,
                    ).unwrap());
                    assert(!inputs_authorized(*self, inputs@));
                }
                return false;
            }
            assert(spent_outputs@[i as int] == lookup(
                self.outputs@,
                inputs@[i as int].outpoint,
            ).unwrap());
            i = i + 1;
        }
        assert(inputs_authorized(*self, inputs@));

        let mut i: usize = 0;
        assert(claimed_deposits@.len() == deposit_inputs@.len());
        while i < deposit_inputs.len()
            invariant
                i <= deposit_inputs.len(),
                forall|k: int|
                    0 <= k < i ==> lookup(
                        main_state.deposits@,
                        (#[trigger] deposit_inputs@[k]).outpoint,
                    ).unwrap().address.spec_check_signature(deposit_inputs@[k].signature),
            decreases deposit_inputs.len() - i,
        {
            if !claimed_deposits[i].address.check_signature(&deposit_inputs[i].signature) {
                proof {
                    assert(claimed_deposits@[i as int] == lookup(
                        main_state.deposits@,
                        deposit_inputs@[i as int].outpoint,
                    ).unwrap());
                    assert(!deposits_authorized(*main_state, deposit_inputs@));
                }
                return false;
            }
            assert(claimed_deposits@[i as int] == lookup(
                main_state.deposits@,
                deposit_inputs@[i as int].outpoint,
            ).unwrap());
            i = i + 1;
        }
        assert(deposits_authorized(*main_state, deposit_inputs@));

        let mut i: usize = 0;
        assert(refunded_withdrawals@.len() == refund_inputs@.len());
        while i < refund_inputs.len()
            invariant
                i <= refund_inputs.len(),
                forall|k: int|
                    0 <= k < i ==> lookup(
                        main_state.withdrawals@,
                        (#[trigger] refund_inputs@[k]).outpoint,
                    ).unwrap().address.spec_check_signature(refund_inputs@[k].signature),
            decreases refund_inputs.len() - i,
        {
            if !refunded_withdrawals[i].address.check_signature(&refund_inputs[i].signature) {
                proof {
                    assert(refunded_withdrawals@[i as int] == lookup(
                        main_state.withdrawals@,
                        refund_inputs@[i as int].outpoint,
                    ).unwrap());
                    assert(!refunds_authorized(*main_state, refund_inputs@));
                }
                return false;
            }
            assert(refunded_withdrawals@[i as int] == lookup(
                main_state.withdrawals@,
                refund_inputs@[i as int].outpoint,
            ).unwrap());
            i = i + 1;
        }
        assert(refunds_authorized(*main_state, refund_inputs@));

        let ghost gstate = *self;
        let ghost gmain = *main_state;
        let ghost gbody = *body;
        let ghost ins = flat_inputs(body.transactions@);
        let ghost deps = flat_deposit_inputs(body.transactions@);
        let ghost refs = flat_refund_inputs(body.transactions@);
        proof {
            lemma_sum64_nonneg(amounts_of_outputs(resolved_spent_outputs(gstate, ins)));
            lemma_sum64_nonneg(amounts_of_deposits(resolved_deposits(gmain, deps)));
            lemma_sum64_nonneg(amounts_of_withdrawals(resolved_refunds(gmain, refs)));
            lemma_sum64_nonneg(amounts_of_pairs(created_pairs(header.block_hash, gbody)));
            lemma_sum64_nonneg(amounts_of_withdrawals(flat_withdrawals(gbody.transactions@)));
            lemma_sum64_nonneg(amounts_of_outputs(gbody.coinbase@));
        }

        let spent_amounts = output_amounts(&spent_outputs);
        let spent_amt = match checked_sum(&spent_amounts) {
            Some(a) => a,
            None => {
                return false;
            },
        };
        let dep_amounts = deposit_amounts(&claimed_deposits);
        let dep_amt = match checked_sum(&dep_amounts) {
            Some(a) => a,
            None => {
                return false;
            },
        };
        let ref_amounts = withdrawal_amounts(&refunded_withdrawals);
        let ref_amt = match checked_sum(&ref_amounts) {
            Some(a) => a,
            None => {
                return false;
            },
        };
        if dep_amt > u64::MAX - spent_amt {
            return false;
        }
        let in_partial = spent_amt + dep_amt;
        if ref_amt > u64::MAX - in_partial {
            return false;
        }
        let total_input_amount = in_partial + ref_amt;
        assert(total_input_amount as int == total_input_sum(gstate, gmain, gbody));

        let created = body.outputs(header);
        let created_amounts = pair_amounts(&created);
        let created_amt = match checked_sum(&created_amounts) {
            Some(a) => a,
            None => {
                return false;
            },
        };
        let withdrawals = body.withdrawals();
        let wd_amounts = withdrawal_amounts(&withdrawals);
        let wd_amt = match checked_sum(&wd_amounts) {
            Some(a) => a,
            None => {
                return false;
            },
        };
        if wd_amt > u64::MAX - created_amt {
            return false;
        }
        let total_output_amount = created_amt + wd_amt;
        assert(total_output_amount as int == total_output_sum(header.block_hash, gbody));

        let coinbase_amounts = output_amounts(&body.coinbase);
        let total_coinbase_amount = match checked_sum(&coinbase_amounts) {
            Some(a) => a,
            None => {
                return false;
            },
        };
        if total_output_amount < total_input_amount {
            return false;
        }
        total_coinbase_amount == total_output_amount - total_input_amount
    }
}

} // verus!
