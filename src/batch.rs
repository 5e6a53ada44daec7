//! Driving the processor over a batch and packaging the commitment record.
use vstd::prelude::*;
use crate::primitives::{Address, Hash32, u256_from_u64};
use crate::ledger::{
    AccountModel, AccountState, Transaction, TransactionModel, compute_state_root, hash_transaction,
    ledger_view, state_root, transaction_digest, transactions_view,
};
use crate::processor::{ExecutionError, apply_transaction, execute_transaction};
use crate::laws::batch_fails_at_first_failure;

verus! {

/// A batch to apply: ordered transactions, the root the caller claims to start
/// from and the one it expects to reach (both advisory), and the batch index.
#[derive(Clone, Debug)]
pub struct StateTransition {
    pub transactions: Vec<Transaction>,
    pub old_state_root: Hash32,
    pub new_state_root: Hash32,
    pub batch_index: u64,
}

/// The commitment record of a batch that was applied in full.
#[derive(Clone, Debug)]
pub struct StateTransitionProof {
    pub old_state_root: Hash32,
    pub new_state_root: Hash32,
    pub batch_index: u64,
    pub transaction_count: u64,
    pub transaction_hashes: Vec<Hash32>,
}

/// Why a batch was rejected: the first transaction that failed, and how.
#[derive(Clone, Copy, Debug, PartialEq, Eq, Structural)]
pub struct BatchError {
    pub index: usize,
    pub reason: ExecutionError,
}

/// The ledger after applying `txs` in order, or the position and reason of the
/// first transaction that fails.
pub open spec fn apply_batch(s: Seq<AccountModel>, txs: Seq<TransactionModel>) -> Result<
    Seq<AccountModel>,
    (int, ExecutionError),
>
    decreases txs.len(),
{
    if txs.len() == 0 {
        Ok(s)
    } else {
        match apply_batch(s, txs.drop_last()) {
            Err(e) => Err(e),
            Ok(s1) => match apply_transaction(s1, txs.last()) {
                Ok(s2) => Ok(s2),
                Err(e) => Err((txs.len() - 1, e)),
            },
        }
    }
}

/// The digests of a batch's transactions: each of the canonical encoding alone.
pub open spec fn hashes_match(hashes: Seq<Hash32>, txs: Seq<TransactionModel>) -> bool {
    &&& hashes.len() == txs.len()
    &&& forall|i: int| 0 <= i < txs.len() ==> hashes[i]@ == transaction_digest(#[trigger] txs[i])
}

/// Hashes each transaction of a batch, in order.
pub fn hash_transactions(txs: &Vec<Transaction>) -> (r: Vec<Hash32>)
    ensures
        hashes_match(r@, transactions_view(txs@)),
{
    let mut hashes: Vec<Hash32> = Vec::new();
    let mut i: usize = 0;
    while i < txs.len()
        invariant
            i <= txs@.len(),
            hashes@.len() == i,
            forall|j: int| 0 <= j < i ==> hashes@[j]@ == transaction_digest(#[trigger] txs@[j]@),
        decreases txs@.len() - i,
    {
        hashes.push(hash_transaction(&txs[i]));
        i = i + 1;
    }
    hashes
}

/// Assembles a commitment record; the count is the number of hashes.
pub fn build_record(
    old_state_root: Hash32,
    new_state_root: Hash32,
    batch_index: u64,
    transaction_hashes: Vec<Hash32>,
) -> (r: StateTransitionProof)
    ensures
        r.old_state_root == old_state_root,
        r.new_state_root == new_state_root,
        r.batch_index == batch_index,
        r.transaction_count == transaction_hashes@.len() as u64,
        r.transaction_hashes@ == transaction_hashes@,
{
    let transaction_count = transaction_hashes.len() as u64;
    StateTransitionProof {
        old_state_root,
        new_state_root,
        batch_index,
        transaction_count,
        transaction_hashes,
    }
}

/// Applies a batch to a ledger and commits to the result.
///
/// The transaction hashes are taken before anything is applied. On the first
/// failing transaction the whole batch is rejected and no record is produced.
pub fn execute_batch(transition: &StateTransition, accounts: Vec<AccountState>) -> (r: Result<
    StateTransitionProof,
    BatchError,
>)
    ensures
        match apply_batch(ledger_view(accounts@), transactions_view(transition.transactions@)) {
            Ok(s) => r matches Ok(p) && {
                &&& p.old_state_root@ == state_root(ledger_view(accounts@))
                &&& p.new_state_root@ == state_root(s)
                &&& p.batch_index == transition.batch_index
                &&& p.transaction_count == transition.transactions@.len() as u64
                &&& hashes_match(p.transaction_hashes@, transactions_view(transition.transactions@))
            },
            Err((k, e)) => r matches Err(be) && be.index as int == k && be.reason == e,
        },
{
    let txs = &transition.transactions;
    let ghost s0 = ledger_view(accounts@);
    let ghost tv = transactions_view(txs@);
    let transaction_hashes = hash_transactions(txs);
    let old_root = compute_state_root(accounts.as_slice());
    let mut ledger = accounts;
    let mut i: usize = 0;
    while i < txs.len()
        invariant
            i <= txs@.len(),
            tv == transactions_view(txs@),
            txs@ == transition.transactions@,
            s0 == ledger_view(accounts@),
            old_root@ == state_root(s0),
            hashes_match(transaction_hashes@, tv),
            apply_batch(s0, tv.take(i as int)) == Ok::<
                Seq<AccountModel>,
                (int, ExecutionError),
            >(ledger_view(ledger@)),
        decreases txs@.len() - i,
    {
        let ghost before = ledger_view(ledger@);
        let outcome = execute_transaction(&txs[i], &mut ledger);
        assert(tv.take(i as int + 1).drop_last() =~= tv.take(i as int));
        assert(tv.take(i as int + 1).last() == txs@[i as int]@);
        match outcome {
            Ok(_) => {},
            Err(reason) => {
                proof {
                    assert(tv[i as int] == txs@[i as int]@);
                    batch_fails_at_first_failure(s0, tv, i as int, before, reason);
                }
                return Err(BatchError { index: i, reason });
            },
        }
        i = i + 1;
    }
    assert(tv.take(txs@.len() as int) =~= tv);
    let new_root = compute_state_root(ledger.as_slice());
    Ok(build_record(old_root, new_root, transition.batch_index, transaction_hashes))
}

/// The balance the seeded account starts with.
pub const GENESIS_BALANCE: u64 = 1_000_000;

/// The seeded starting ledger: one account at the all-zero address, holding
/// `GENESIS_BALANCE`, with nonce zero and all-zero digests.
pub fn genesis_ledger() -> (r: Vec<AccountState>)
    ensures
        r@.len() == 1,
        r@[0]@.address == Seq::new(20, |i: int| 0u8),
        r@[0]@.balance == GENESIS_BALANCE as nat,
        r@[0]@.nonce == 0,
        r@[0]@.code_hash == Seq::new(32, |i: int| 0u8),
        r@[0]@.storage_root == Seq::new(32, |i: int| 0u8),
{
    let account = AccountState {
        address: Address { bytes: [0u8; 20] },
        balance: u256_from_u64(GENESIS_BALANCE),
        nonce: 0,
        code_hash: Hash32 { bytes: [0u8; 32] },
        storage_root: Hash32 { bytes: [0u8; 32] },
    };
    assert(account@.address =~= Seq::new(20, |i: int| 0u8));
    assert(account@.code_hash =~= Seq::new(32, |i: int| 0u8));
    assert(account@.storage_root =~= Seq::new(32, |i: int| 0u8));
    vec![account]
}

} // verus!
