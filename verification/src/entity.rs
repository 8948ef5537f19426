//! The ledger entity model: the data shapes the engines work on and the
//! addressing scheme that makes every output uniquely referable.

use vstd::prelude::*;

verus! {

/// A fixed-width identifier for a block header or a transaction.
///
/// Digest computation (a collision-resistant cryptographic hash over the
/// entity's full content) is outside this core: entities arrive carrying the
/// digest that identifies them, and the ledger logic only ever compares
/// digests for equality. Collision resistance is what makes outpoints unique
/// by construction; where two distinct entities carried equal digests, the
/// caller is expected to reject the block rather than connect it.
#[derive(Clone, Copy, Debug, PartialEq, Eq, Structural)]
pub struct Digest(pub u64);

/// An opaque authorization target: whoever can produce the matching
/// signature may spend value locked to this address.
///
/// The capability pair is modeled directly: an address commits to the one
/// signature value it accepts. A concrete system would put a cryptographic
/// scheme between the two; that primitive is out of scope here, and nothing
/// in the ledger logic depends on it beyond the yes/no verdict.
#[derive(Clone, Copy, Debug, PartialEq, Eq, Structural)]
pub struct MinimalAddress(pub u64);

/// The witness presented to unlock an address.
#[derive(Clone, Copy, Debug, PartialEq, Eq, Structural)]
pub struct MinimalSignature(pub u64);

impl MinimalAddress {
    /// What it means for a signature to satisfy this address.
    pub open spec fn spec_check_signature(self, signature: MinimalSignature) -> bool {
        self.0 == signature.0
    }

    /// The authorization predicate: a pure check of the supplied signature
    /// against this address.
    pub fn check_signature(&self, signature: &MinimalSignature) -> (r: bool)
        ensures
            r == self.spec_check_signature(*signature),
    {
        self.0 == signature.0
    }
}

/// A unique reference to one output: either the n-th reward output of a
/// block's coinbase, or the n-th output of a transaction.
///
/// Outpoints are globally unique by construction, because block and
/// transaction digests are collision resistant and `n` is unique within one
/// coinbase or transaction.
#[derive(Clone, Copy, Debug, PartialEq, Eq, Structural)]
pub enum Outpoint {
    Coinbase { block_hash: Digest, n: usize },
    Regular { txid: Digest, n: usize },
}

/// A ledger output: an amount of value locked to an address. Created only
/// as part of a block body and never mutated afterwards.
#[derive(Clone, Copy, Debug, PartialEq, Eq, Structural)]
pub struct Output {
    pub amount: u64,
    pub address: MinimalAddress,
}

/// The main-chain oracle's own key for a deposit or a withdrawal. This core
/// never derives such keys; it only hands them back to the oracle.
#[derive(Clone, Copy, Debug, PartialEq, Eq, Structural)]
pub struct MainRef(pub u64);

/// A claim on an existing UTXO: the outpoint being spent and the signature
/// that is supposed to satisfy the spent output's address.
#[derive(Clone, Copy, Debug, PartialEq, Eq, Structural)]
pub struct MinimalInput {
    pub outpoint: Outpoint,
    pub signature: MinimalSignature,
}

/// A claim on a main-chain deposit, by the oracle's reference key.
#[derive(Clone, Copy, Debug, PartialEq, Eq, Structural)]
pub struct DepositInput {
    pub outpoint: MainRef,
    pub signature: MinimalSignature,
}

/// A claim that reclaims the value of a failed withdrawal, by the oracle's
/// reference key.
#[derive(Clone, Copy, Debug, PartialEq, Eq, Structural)]
pub struct RefundInput {
    pub outpoint: MainRef,
    pub signature: MinimalSignature,
}

/// Value recognized as entering the ledger from the main chain, claimable
/// once via a deposit input. Owned by the main-chain oracle; read-only here.
#[derive(Clone, Copy, Debug, PartialEq, Eq, Structural)]
pub struct Deposit {
    pub amount: u64,
    pub address: MinimalAddress,
}

/// A ledger-originated request to move value back to the main chain. It
/// becomes refundable only through main-chain-side logic external to this
/// core.
#[derive(Clone, Copy, Debug, PartialEq, Eq, Structural)]
pub struct Withdrawal {
    pub amount: u64,
    pub address: MinimalAddress,
}

/// A transaction: claims on deposits, on failed withdrawals, and on existing
/// UTXOs, producing new withdrawals and new outputs.
///
/// `txid` is the transaction's identity: the digest of its contents,
/// computed by the embedding system's digest primitive and carried with the
/// transaction. It keys the transaction's outputs.
#[derive(Clone, Debug, PartialEq, Eq)]
pub struct Transaction {
    pub txid: Digest,
    pub deposit_inputs: Vec<DepositInput>,
    pub refund_inputs: Vec<RefundInput>,
    pub inputs: Vec<MinimalInput>,
    pub withdrawals: Vec<Withdrawal>,
    pub outputs: Vec<Output>,
}

/// The one part of a block header this core reads: the header's own digest,
/// which keys the block's coinbase outputs. Parent linkage, consensus fields
/// and their semantics live outside this core.
#[derive(Clone, Copy, Debug, PartialEq, Eq, Structural)]
pub struct MinimalHeader {
    pub block_hash: Digest,
}

/// A block body: the ordered coinbase outputs and the ordered transactions.
#[derive(Clone, Debug, PartialEq, Eq)]
pub struct MinimalBody {
    pub coinbase: Vec<Output>,
    pub transactions: Vec<Transaction>,
}

impl Default for MinimalBody {
    /// The empty body: no coinbase outputs and no transactions.
    fn default() -> (r: Self)
        ensures
            r.coinbase@.len() == 0,
            r.transactions@.len() == 0,
    {
        MinimalBody { coinbase: Vec::new(), transactions: Vec::new() }
    }
}

} // verus!
