//! Applying one transaction to a ledger, in place, or not at all.
use vstd::prelude::*;
use crate::primitives::{Address, u256_bound, u256_checked_add, u256_checked_mul, u256_checked_sub, u256_from_u64};
use crate::ledger::{AccountModel, AccountState, Transaction, TransactionModel, ledger_view};

verus! {

/// Why a transaction could not be applied.
#[derive(Clone, Copy, Debug, PartialEq, Eq, Structural)]
pub enum ExecutionError {
    /// The sender or the recipient is not in the ledger.
    AccountNotFound,
    /// The sender cannot cover the value and the fee.
    InsufficientBalance,
    /// A fee, total, balance or nonce does not fit its integer width.
    ArithmeticOverflow,
}

/// Some account of the ledger has address `a`.
pub open spec fn holds_address(s: Seq<AccountModel>, a: Seq<u8>) -> bool {
    exists|i: int| 0 <= i < s.len() && s[i].address == a
}

/// `i` is the position of the first account with address `a`.
pub open spec fn is_first_index(s: Seq<AccountModel>, a: Seq<u8>, i: int) -> bool {
    &&& 0 <= i < s.len()
    &&& s[i].address == a
    &&& forall|j: int| 0 <= j < i ==> s[j].address != a
}

/// The position of the first account with address `a`.
pub open spec fn first_index(s: Seq<AccountModel>, a: Seq<u8>) -> int {
    choose|i: int| is_first_index(s, a, i)
}

/// The fee a transaction charges its sender.
pub open spec fn fee(t: TransactionModel) -> nat {
    t.gas_limit * t.gas_price
}

/// What the sender pays in all: the value and the fee.
pub open spec fn total_cost(t: TransactionModel) -> nat {
    t.value + fee(t)
}

/// The ledger after transaction `t`, or why `t` is rejected.
///
/// Both parties are looked up by address (the first match counts); the fee and
/// the total must fit in 256 bits; the sender must cover the total; the sender's
/// nonce must have room to grow; the recipient's new balance must fit. Then the
/// sender is debited the total and its nonce increases by one, and the
/// recipient is credited the value. A self-transfer costs the fee alone.
pub open spec fn apply_transaction(s: Seq<AccountModel>, t: TransactionModel) -> Result<
    Seq<AccountModel>,
    ExecutionError,
> {
    if !holds_address(s, t.from) || !holds_address(s, t.to) {
        Err(ExecutionError::AccountNotFound)
    } else {
        let fi = first_index(s, t.from);
        let ti = first_index(s, t.to);
        if fee(t) >= u256_bound() || total_cost(t) >= u256_bound() {
            Err(ExecutionError::ArithmeticOverflow)
        } else if s[fi].balance < total_cost(t) {
            Err(ExecutionError::InsufficientBalance)
        } else if s[fi].nonce >= u64::MAX {
            Err(ExecutionError::ArithmeticOverflow)
        } else if fi != ti && s[ti].balance + t.value >= u256_bound() {
            Err(ExecutionError::ArithmeticOverflow)
        } else {
            let debited = AccountModel {
                balance: (s[fi].balance - total_cost(t)) as nat,
                nonce: s[fi].nonce + 1,
                ..s[fi]
            };
            let s1 = s.update(fi, debited);
            let credited = AccountModel { balance: s1[ti].balance + t.value, ..s1[ti] };
            Ok(s1.update(ti, credited))
        }
    }
}

proof fn lemma_first_index_unique(s: Seq<AccountModel>, a: Seq<u8>, i: int)
    requires
        is_first_index(s, a, i),
    ensures
        first_index(s, a) == i,
{
    let k = first_index(s, a);
    assert(is_first_index(s, a, k));
    if k < i {
        assert(s[k].address != a);
    } else if i < k {
        assert(s[i].address != a);
    }
}

proof fn lemma_first_match_below(s: Seq<AccountModel>, a: Seq<u8>, i: int)
    requires
        0 <= i < s.len(),
        s[i].address == a,
    ensures
        exists|k: int| is_first_index(s, a, k),
    decreases i,
{
    if exists|j: int| 0 <= j < i && s[j].address == a {
        let j = choose|j: int| 0 <= j < i && s[j].address == a;
        lemma_first_match_below(s, a, j);
    } else {
        assert(is_first_index(s, a, i));
    }
}

/// An address held by the ledger has a first position, and `first_index` is it.
pub proof fn lemma_first_index_found(s: Seq<AccountModel>, a: Seq<u8>)
    requires
        holds_address(s, a),
    ensures
        is_first_index(s, a, first_index(s, a)),
{
    let i = choose|i: int| 0 <= i < s.len() && s[i].address == a;
    lemma_first_match_below(s, a, i);
}

/// Finds the position of the first account with the given address.
pub fn find_account(accounts: &Vec<AccountState>, address: &Address) -> (r: Option<usize>)
    ensures
        match r {
            Some(i) => is_first_index(ledger_view(accounts@), address@, i as int),
            None => !holds_address(ledger_view(accounts@), address@),
        },
{
    let ghost s = ledger_view(accounts@);
    let mut i: usize = 0;
    while i < accounts.len()
        invariant
            i <= accounts@.len(),
            s == ledger_view(accounts@),
            forall|j: int| 0 <= j < i ==> s[j].address != address@,
        decreases accounts@.len() - i,
    {
        if accounts[i].address.same_as(address) {
            return Some(i);
        }
        i = i + 1;
    }
    None
}

/// Applies one transaction to the ledger: all of its effects, or none.
pub fn execute_transaction(tx: &Transaction, accounts: &mut Vec<AccountState>) -> (r: Result<
    (),
    ExecutionError,
>)
    ensures
        match r {
            Ok(_) => apply_transaction(ledger_view(old(accounts)@), tx@) == Ok::<
                Seq<AccountModel>,
                ExecutionError,
            >(ledger_view(final(accounts)@)),
            Err(e) => apply_transaction(ledger_view(old(accounts)@), tx@) == Err::<
                Seq<AccountModel>,
                ExecutionError,
            >(e) && final(accounts)@ == old(accounts)@,
        },
{
    let ghost s = ledger_view(accounts@);
    let from_idx = find_account(accounts, &tx.from);
    let to_idx = find_account(accounts, &tx.to);
    let (fi, ti) = match (from_idx, to_idx) {
        (Some(fi), Some(ti)) => (fi, ti),
        _ => {
            return Err(ExecutionError::AccountNotFound);
        },
    };
    proof {
        lemma_first_index_unique(s, tx@.from, fi as int);
        lemma_first_index_unique(s, tx@.to, ti as int);
    }
    let gas_cost = match u256_checked_mul(&u256_from_u64(tx.gas_limit), &u256_from_u64(tx.gas_price)) {
        Some(c) => c,
        None => {
            return Err(ExecutionError::ArithmeticOverflow);
        },
    };
    let total = match u256_checked_add(&tx.value, &gas_cost) {
        Some(t) => t,
        None => {
            return Err(ExecutionError::ArithmeticOverflow);
        },
    };
    let mut sender = accounts[fi];
    let remaining = match u256_checked_sub(&sender.balance, &total) {
        Some(b) => b,
        None => {
            return Err(ExecutionError::InsufficientBalance);
        },
    };
    if sender.nonce == u64::MAX {
        return Err(ExecutionError::ArithmeticOverflow);
    }
    sender.balance = remaining;
    sender.nonce = sender.nonce + 1;
    let ghost debited = sender@;
    let mut recipient = if fi == ti {
        sender
    } else {
        accounts[ti]
    };
    recipient.balance = match u256_checked_add(&recipient.balance, &tx.value) {
        Some(b) => b,
        None => {
            return Err(ExecutionError::ArithmeticOverflow);
        },
    };
    accounts.set(fi, sender);
    accounts.set(ti, recipient);
    proof {
        let s1 = s.update(fi as int, debited);
        assert(ledger_view(accounts@) =~= s1.update(ti as int, recipient@));
    }
    Ok(())
}

} // verus!
