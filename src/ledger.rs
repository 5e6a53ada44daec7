//! Accounts and transactions, their canonical encodings and the state-root commitment.
use vstd::prelude::*;
use crate::primitives::{Address, Hash32, Uint256, keccak, keccak_of};
use crate::rlp::{append_bytes, append_u256, append_u64, rlp_bytes, rlp_uint};

verus! {

/// One ledger participant.
#[derive(Clone, Copy, Debug)]
pub struct AccountState {
    pub address: Address,
    pub balance: Uint256,
    pub nonce: u64,
    pub code_hash: Hash32,
    pub storage_root: Hash32,
}

/// One intended balance transfer.
#[derive(Clone, Debug)]
pub struct Transaction {
    pub from: Address,
    pub to: Address,
    pub value: Uint256,
    pub data: Vec<u8>,
    pub nonce: u64,
    pub gas_limit: u64,
    pub gas_price: u64,
}

/// The mathematical content of an account.
pub ghost struct AccountModel {
    pub address: Seq<u8>,
    pub balance: nat,
    pub nonce: nat,
    pub code_hash: Seq<u8>,
    pub storage_root: Seq<u8>,
}

/// The mathematical content of a transaction.
pub ghost struct TransactionModel {
    pub from: Seq<u8>,
    pub to: Seq<u8>,
    pub value: nat,
    pub data: Seq<u8>,
    pub nonce: nat,
    pub gas_limit: nat,
    pub gas_price: nat,
}

impl View for AccountState {
    type V = AccountModel;

    open spec fn view(&self) -> AccountModel {
        AccountModel {
            address: self.address@,
            balance: self.balance@,
            nonce: self.nonce as nat,
            code_hash: self.code_hash@,
            storage_root: self.storage_root@,
        }
    }
}

impl View for Transaction {
    type V = TransactionModel;

    open spec fn view(&self) -> TransactionModel {
        TransactionModel {
            from: self.from@,
            to: self.to@,
            value: self.value@,
            data: self.data@,
            nonce: self.nonce as nat,
            gas_limit: self.gas_limit as nat,
            gas_price: self.gas_price as nat,
        }
    }
}

/// The models of a ledger's accounts, in ledger order.
pub open spec fn ledger_view(accounts: Seq<AccountState>) -> Seq<AccountModel> {
    accounts.map_values(|a: AccountState| a@)
}

/// The models of a batch's transactions, in batch order.
pub open spec fn transactions_view(txs: Seq<Transaction>) -> Seq<TransactionModel> {
    txs.map_values(|t: Transaction| t@)
}

/// Canonical encoding of an account: its fields' RLP items in declared order.
pub open spec fn account_encoding(a: AccountModel) -> Seq<u8> {
    rlp_bytes(a.address) + rlp_uint(a.balance) + rlp_uint(a.nonce) + rlp_bytes(a.code_hash)
        + rlp_bytes(a.storage_root)
}

/// Canonical encoding of a transaction: its fields' RLP items in declared order.
pub open spec fn transaction_encoding(t: TransactionModel) -> Seq<u8> {
    rlp_bytes(t.from) + rlp_bytes(t.to) + rlp_uint(t.value) + rlp_bytes(t.data) + rlp_uint(
        t.nonce,
    ) + rlp_uint(t.gas_limit) + rlp_uint(t.gas_price)
}

/// The encodings of a ledger's accounts laid end to end, with no separator.
pub open spec fn ledger_encoding(accounts: Seq<AccountModel>) -> Seq<u8>
    decreases accounts.len(),
{
    if accounts.len() == 0 {
        Seq::<u8>::empty()
    } else {
        ledger_encoding(accounts.drop_last()) + account_encoding(accounts.last())
    }
}

/// The state root of a ledger: one digest over its concatenated encodings.
pub open spec fn state_root(accounts: Seq<AccountModel>) -> Seq<u8> {
    keccak_of(ledger_encoding(accounts))
}

/// The hash that commits to one transaction.
pub open spec fn transaction_digest(t: TransactionModel) -> Seq<u8> {
    keccak_of(transaction_encoding(t))
}

impl AccountState {
    /// Appends the canonical encoding of this account to `out`.
    pub fn encode(&self, out: &mut Vec<u8>)
        ensures
            final(out)@ == old(out)@ + account_encoding(self@),
    {
        append_bytes(&self.address.bytes, out);
        append_u256(&self.balance, out);
        append_u64(self.nonce, out);
        append_bytes(&self.code_hash.bytes, out);
        append_bytes(&self.storage_root.bytes, out);
        assert(final(out)@ =~= old(out)@ + account_encoding(self@));
    }
}

impl Transaction {
    /// Appends the canonical encoding of this transaction to `out`.
    pub fn encode(&self, out: &mut Vec<u8>)
        ensures
            final(out)@ == old(out)@ + transaction_encoding(self@),
    {
        append_bytes(&self.from.bytes, out);
        append_bytes(&self.to.bytes, out);
        append_u256(&self.value, out);
        append_bytes(self.data.as_slice(), out);
        append_u64(self.nonce, out);
        append_u64(self.gas_limit, out);
        append_u64(self.gas_price, out);
        assert(final(out)@ =~= old(out)@ + transaction_encoding(self@));
    }
}

/// Hashes the canonical encoding of a transaction.
pub fn hash_transaction(tx: &Transaction) -> (r: Hash32)
    ensures
        r@ == transaction_digest(tx@),
{
    let mut encoded: Vec<u8> = Vec::new();
    tx.encode(&mut encoded);
    assert(encoded@ =~= transaction_encoding(tx@));
    keccak(&encoded)
}

/// Computes the state root of an ordered account sequence.
pub fn compute_state_root(accounts: &[AccountState]) -> (r: Hash32)
    ensures
        r@ == state_root(ledger_view(accounts@)),
{
    let mut combined: Vec<u8> = Vec::new();
    let mut i: usize = 0;
    while i < accounts.len()
        invariant
            i <= accounts@.len(),
            combined@ == ledger_encoding(ledger_view(accounts@.take(i as int))),
        decreases accounts@.len() - i,
    {
        let ghost before = combined@;
        accounts[i].encode(&mut combined);
        proof {
            let prefix = ledger_view(accounts@.take(i as int + 1));
            assert(prefix.drop_last() =~= ledger_view(accounts@.take(i as int)));
            assert(prefix.last() == accounts@[i as int]@);
        }
        i = i + 1;
    }
    assert(accounts@.take(accounts@.len() as int) =~= accounts@);
    keccak(&combined)
}

} // verus!
