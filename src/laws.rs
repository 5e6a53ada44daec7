//! Properties that relate the encoder, the processor and the batch executor.
use vstd::prelude::*;
use crate::primitives::u256_bound;
use crate::rlp::rlp_bytes;
use crate::ledger::{
    AccountModel, TransactionModel, account_encoding, ledger_encoding, state_root,
    transaction_encoding,
};
use crate::processor::{
    ExecutionError, apply_transaction, fee, first_index, holds_address, lemma_first_index_found,
    total_cost,
};
use crate::batch::apply_batch;

verus! {

/// Equal accounts have identical encodings, and equal ledgers identical roots.
pub proof fn encoding_is_deterministic(a: AccountModel, b: AccountModel, s: Seq<AccountModel>, p: Seq<AccountModel>)
    requires
        a == b,
        s == p,
    ensures
        account_encoding(a) == account_encoding(b),
        ledger_encoding(s) == ledger_encoding(p),
        state_root(s) == state_root(p),
{
}

/// Equal transactions have identical encodings.
pub proof fn transaction_encoding_is_deterministic(t: TransactionModel, u: TransactionModel)
    requires
        t == u,
    ensures
        transaction_encoding(t) == transaction_encoding(u),
{
}

/// An applied transfer moves value between two accounts and burns the fee: the
/// two balances together lose exactly the fee, or, for a self-transfer, the one
/// balance loses exactly the fee. No other account changes.
pub proof fn transfer_conserves_value(s: Seq<AccountModel>, t: TransactionModel)
    requires
        apply_transaction(s, t) is Ok,
    ensures
        ({
            let s2 = apply_transaction(s, t)->Ok_0;
            let fi = first_index(s, t.from);
            let ti = first_index(s, t.to);
            &&& s2.len() == s.len()
            &&& fi != ti ==> s2[fi].balance + s2[ti].balance + fee(t) == s[fi].balance
                + s[ti].balance
            &&& fi == ti ==> s2[fi].balance + fee(t) == s[fi].balance
            &&& forall|j: int| 0 <= j < s.len() && j != fi && j != ti ==> s2[j] == s[j]
        }),
{
    lemma_first_index_found(s, t.from);
    lemma_first_index_found(s, t.to);
}

/// A transfer of exactly the sender's balance (value plus fee) succeeds and
/// leaves the sender with nothing, where the nonce and the recipient's balance
/// have room to grow.
pub proof fn exact_balance_empties_sender(s: Seq<AccountModel>, t: TransactionModel)
    requires
        holds_address(s, t.from),
        holds_address(s, t.to),
        t.from != t.to || t.value == 0,
        total_cost(t) == s[first_index(s, t.from)].balance,
        total_cost(t) < u256_bound(),
        s[first_index(s, t.from)].nonce < u64::MAX,
        s[first_index(s, t.to)].balance + t.value < u256_bound(),
    ensures
        apply_transaction(s, t) is Ok,
        apply_transaction(s, t)->Ok_0[first_index(s, t.from)].balance == 0,
{
    lemma_first_index_found(s, t.from);
    lemma_first_index_found(s, t.to);
}

/// A batch whose transaction `k` fails on the ledger left by the ones before it
/// is rejected as a whole, naming `k` and the reason.
pub proof fn batch_fails_at_first_failure(
    s: Seq<AccountModel>,
    txs: Seq<TransactionModel>,
    k: int,
    before: Seq<AccountModel>,
    e: ExecutionError,
)
    requires
        0 <= k < txs.len(),
        apply_batch(s, txs.take(k)) == Ok::<Seq<AccountModel>, (int, ExecutionError)>(before),
        apply_transaction(before, txs[k]) == Err::<Seq<AccountModel>, ExecutionError>(e),
    ensures
        apply_batch(s, txs) == Err::<Seq<AccountModel>, (int, ExecutionError)>((k, e)),
    decreases txs.len(),
{
    if k + 1 < txs.len() {
        assert(txs.drop_last().take(k) =~= txs.take(k));
        batch_fails_at_first_failure(s, txs.drop_last(), k, before, e);
    } else {
        assert(txs.drop_last() =~= txs.take(k));
    }
}

proof fn lemma_ledger_encoding_append(a: Seq<AccountModel>, b: Seq<AccountModel>)
    ensures
        ledger_encoding(a + b) == ledger_encoding(a) + ledger_encoding(b),
    decreases b.len(),
{
    if b.len() == 0 {
        assert(a + b =~= a);
        assert(ledger_encoding(a) + ledger_encoding(b) =~= ledger_encoding(a));
    } else {
        assert((a + b).drop_last() =~= a + b.drop_last());
        assert((a + b).last() == b.last());
        lemma_ledger_encoding_append(a, b.drop_last());
        assert(ledger_encoding(a) + ledger_encoding(b) =~= ledger_encoding(a) + ledger_encoding(
            b.drop_last(),
        ) + account_encoding(b.last()));
    }
}

proof fn lemma_first_difference(s: Seq<AccountModel>, p: Seq<AccountModel>, i: int)
    requires
        0 <= i < s.len(),
        i < p.len(),
        s[i] != p[i],
    ensures
        exists|k: int| 0 <= k <= i && s[k] != p[k] && forall|j: int| 0 <= j < k ==> s[j] == p[j],
    decreases i,
{
    if exists|j: int| 0 <= j < i && s[j] != p[j] {
        let j = choose|j: int| 0 <= j < i && s[j] != p[j];
        lemma_first_difference(s, p, j);
    } else {
        assert(forall|j: int| 0 <= j < i ==> s[j] == p[j]);
    }
}

/// The bytes of a ledger, from position `i` on: the account at `i` comes first.
proof fn lemma_encoding_splits_at(s: Seq<AccountModel>, i: int)
    requires
        0 <= i < s.len(),
    ensures
        ledger_encoding(s) == ledger_encoding(s.take(i)) + (account_encoding(s[i])
            + ledger_encoding(s.skip(i + 1))),
{
    let one = seq![s[i]];
    assert(s =~= s.take(i) + (one + s.skip(i + 1)));
    lemma_ledger_encoding_append(s.take(i), one + s.skip(i + 1));
    lemma_ledger_encoding_append(one, s.skip(i + 1));
    assert(one.drop_last() =~= Seq::<AccountModel>::empty());
    assert(ledger_encoding(one.drop_last()) =~= Seq::<u8>::empty());
    assert(one.last() == s[i]);
    assert(ledger_encoding(one) =~= account_encoding(s[i]));
}

/// Reordering a ledger whose accounts have distinct 20-byte addresses changes
/// the bytes that its state root hashes. (That the digests then differ is the
/// collision resistance of the hash, which is not stated here.)
pub proof fn reordering_changes_committed_bytes(s: Seq<AccountModel>, p: Seq<AccountModel>)
    requires
        p.len() == s.len(),
        p != s,
        forall|i: int| 0 <= i < s.len() ==> (#[trigger] s[i]).address.len() == 20,
        forall|i: int, j: int|
            0 <= i < s.len() && 0 <= j < s.len() && i != j ==> s[i].address != s[j].address,
        forall|i: int| 0 <= i < p.len() ==> exists|j: int| 0 <= j < s.len() && #[trigger] p[i] == s[j],
    ensures
        ledger_encoding(s) != ledger_encoding(p),
{
    if forall|j: int| 0 <= j < s.len() ==> s[j] == p[j] {
        assert(s =~= p);
    } else {
        let d = choose|j: int| 0 <= j < s.len() && s[j] != p[j];
        lemma_first_difference(s, p, d);
        let i = choose|k: int|
            0 <= k <= d && s[k] != p[k] && forall|j: int| 0 <= j < k ==> s[j] == p[j];
        assert(s.take(i) =~= p.take(i));
        let j = choose|j: int| 0 <= j < s.len() && p[i] == s[j];
        assert(j == i || s[i].address != s[j].address);
        let a = s[i].address;
        let b = p[i].address;
        assert(a != b);
        assert(b.len() == 20);
        if forall|k: int| 0 <= k < 20 ==> a[k] == b[k] {
            assert(a =~= b);
        }
        let k = choose|k: int| 0 <= k < 20 && a[k] != b[k];
        lemma_encoding_splits_at(s, i);
        lemma_encoding_splits_at(p, i);
        let e = ledger_encoding(s.take(i));
        assert(rlp_bytes(a) == seq![0x94u8] + a);
        assert(rlp_bytes(b) == seq![0x94u8] + b);
        assert(ledger_encoding(s)[e.len() + 1 + k] == a[k]);
        assert(ledger_encoding(p)[e.len() + 1 + k] == b[k]);
    }
}

} // verus!
