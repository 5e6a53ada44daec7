use state_transition::batch::{
    build_record, execute_batch, genesis_ledger, hash_transactions, BatchError, StateTransition,
    GENESIS_BALANCE,
};
use state_transition::ledger::{compute_state_root, hash_transaction, AccountState, Transaction};
use state_transition::primitives::{
    keccak, u256_checked_add, u256_checked_mul, u256_checked_sub, u256_from_u64, Address, Hash32,
    Uint256,
};
use state_transition::processor::{execute_transaction, find_account, ExecutionError};

fn addr(b: u8) -> Address {
    Address { bytes: [b; 20] }
}

fn amount(x: u64) -> Uint256 {
    Uint256 { limbs: [x, 0, 0, 0] }
}

fn account(b: u8, balance: u64) -> AccountState {
    AccountState {
        address: addr(b),
        balance: amount(balance),
        nonce: 0,
        code_hash: Hash32 { bytes: [0; 32] },
        storage_root: Hash32 { bytes: [0; 32] },
    }
}

fn tx(from: Address, to: Address, value: u64, gas_limit: u64, gas_price: u64) -> Transaction {
    Transaction { from, to, value: amount(value), data: vec![], nonce: 0, gas_limit, gas_price }
}

fn batch(transactions: Vec<Transaction>) -> StateTransition {
    StateTransition {
        transactions,
        old_state_root: Hash32 { bytes: [0; 32] },
        new_state_root: Hash32 { bytes: [0; 32] },
        batch_index: 7,
    }
}

fn hex(bytes: &[u8]) -> String {
    bytes.iter().map(|b| format!("{:02x}", b)).collect()
}

#[test]
fn self_transfer_pays_fee_only() {
    let zero = Address { bytes: [0; 20] };
    let t = batch(vec![tx(zero, zero, 0, 1, 1)]);
    let proof = execute_batch(&t, genesis_ledger()).expect("batch applies");
    assert_ne!(proof.old_state_root.bytes, proof.new_state_root.bytes);
    assert_eq!(proof.transaction_count, 1);
    assert_eq!(proof.batch_index, 7);
    let mut ledger = genesis_ledger();
    execute_transaction(&t.transactions[0], &mut ledger).unwrap();
    assert_eq!(ledger[0].balance.limbs, [999_999, 0, 0, 0]);
    assert_eq!(ledger[0].nonce, 1);
    assert_eq!(proof.new_state_root.bytes, compute_state_root(&ledger).bytes);
    assert_eq!(proof.old_state_root.bytes, compute_state_root(&genesis_ledger()).bytes);
}

#[test]
fn unknown_recipient_is_rejected() {
    let zero = Address { bytes: [0; 20] };
    let t = batch(vec![tx(zero, addr(0xbb), 5, 1, 1)]);
    let err = execute_batch(&t, genesis_ledger()).unwrap_err();
    assert_eq!(err, BatchError { index: 0, reason: ExecutionError::AccountNotFound });
}

#[test]
fn unknown_sender_is_rejected() {
    let zero = Address { bytes: [0; 20] };
    let mut ledger = genesis_ledger();
    let r = execute_transaction(&tx(addr(0xbb), zero, 5, 1, 1), &mut ledger);
    assert_eq!(r, Err(ExecutionError::AccountNotFound));
    assert_eq!(ledger[0].balance.limbs, [GENESIS_BALANCE, 0, 0, 0]);
}

#[test]
fn overdraft_is_rejected() {
    let zero = Address { bytes: [0; 20] };
    let t = batch(vec![tx(zero, zero, 999_990, 11, 1)]);
    let err = execute_batch(&t, genesis_ledger()).unwrap_err();
    assert_eq!(err, BatchError { index: 0, reason: ExecutionError::InsufficientBalance });
}

#[test]
fn total_beyond_256_bits_overflows() {
    let mut ledger = vec![account(1, 10), account(2, 0)];
    let mut t = tx(addr(1), addr(2), 0, 2, 3);
    t.value = Uint256 { limbs: [u64::MAX; 4] };
    let r = execute_transaction(&t, &mut ledger);
    assert_eq!(r, Err(ExecutionError::ArithmeticOverflow));
    assert_eq!(ledger[0].balance.limbs, [10, 0, 0, 0]);
}

#[test]
fn recipient_balance_overflow_is_rejected() {
    let mut ledger = vec![account(1, 10), account(2, 0)];
    ledger[1].balance = Uint256 { limbs: [u64::MAX; 4] };
    let r = execute_transaction(&tx(addr(1), addr(2), 1, 1, 1), &mut ledger);
    assert_eq!(r, Err(ExecutionError::ArithmeticOverflow));
    assert_eq!(ledger[0].balance.limbs, [10, 0, 0, 0]);
    assert_eq!(ledger[0].nonce, 0);
}

#[test]
fn exhausted_nonce_is_rejected() {
    let mut ledger = vec![account(1, 10), account(2, 0)];
    ledger[0].nonce = u64::MAX;
    let r = execute_transaction(&tx(addr(1), addr(2), 1, 1, 1), &mut ledger);
    assert_eq!(r, Err(ExecutionError::ArithmeticOverflow));
}

#[test]
fn transfer_conserves_value_less_fee() {
    let mut ledger = vec![account(1, 1_000), account(2, 50), account(3, 9)];
    execute_transaction(&tx(addr(1), addr(2), 300, 4, 5), &mut ledger).unwrap();
    assert_eq!(ledger[0].balance.limbs, [680, 0, 0, 0]);
    assert_eq!(ledger[1].balance.limbs, [350, 0, 0, 0]);
    assert_eq!(680 + 350 + 20, 1_000 + 50);
    assert_eq!(ledger[0].nonce, 1);
    assert_eq!(ledger[1].nonce, 0);
    assert_eq!(ledger[2].balance.limbs, [9, 0, 0, 0]);
}

#[test]
fn exact_balance_leaves_zero() {
    let mut ledger = vec![account(1, 1_000), account(2, 0)];
    execute_transaction(&tx(addr(1), addr(2), 900, 10, 10), &mut ledger).unwrap();
    assert_eq!(ledger[0].balance.limbs, [0, 0, 0, 0]);
    assert_eq!(ledger[1].balance.limbs, [900, 0, 0, 0]);
}

#[test]
fn one_more_than_balance_fails() {
    let mut ledger = vec![account(1, 1_000), account(2, 0)];
    let r = execute_transaction(&tx(addr(1), addr(2), 901, 10, 10), &mut ledger);
    assert_eq!(r, Err(ExecutionError::InsufficientBalance));
}

#[test]
fn later_failure_rejects_whole_batch() {
    let ledger = vec![account(1, 1_000), account(2, 0)];
    let t = batch(vec![
        tx(addr(1), addr(2), 100, 1, 1),
        tx(addr(2), addr(1), 10, 1, 1),
        tx(addr(2), addr(1), 1_000, 1, 1),
    ]);
    let err = execute_batch(&t, ledger).unwrap_err();
    assert_eq!(err, BatchError { index: 2, reason: ExecutionError::InsufficientBalance });
}

#[test]
fn batch_hashes_follow_input_order() {
    let ledger = vec![account(1, 1_000), account(2, 0)];
    let t = batch(vec![tx(addr(1), addr(2), 100, 1, 1), tx(addr(2), addr(1), 10, 1, 1)]);
    let proof = execute_batch(&t, ledger).unwrap();
    assert_eq!(proof.transaction_count, 2);
    assert_eq!(proof.transaction_hashes.len(), 2);
    assert_eq!(proof.transaction_hashes[0].bytes, hash_transaction(&t.transactions[0]).bytes);
    assert_eq!(proof.transaction_hashes[1].bytes, hash_transaction(&t.transactions[1]).bytes);
    assert_ne!(proof.transaction_hashes[0].bytes, proof.transaction_hashes[1].bytes);
}

#[test]
fn hashes_do_not_depend_on_outcome() {
    let failing = tx(addr(1), addr(9), 100, 1, 1);
    let hashes = hash_transactions(&vec![failing.clone()]);
    assert_eq!(hashes[0].bytes, hash_transaction(&failing).bytes);
    let mut ledger = vec![account(1, 1_000)];
    assert!(execute_transaction(&failing, &mut ledger).is_err());
    assert_eq!(hash_transaction(&failing).bytes, hashes[0].bytes);
}

#[test]
fn empty_batch_keeps_root() {
    let proof = execute_batch(&batch(vec![]), genesis_ledger()).unwrap();
    assert_eq!(proof.old_state_root.bytes, proof.new_state_root.bytes);
    assert_eq!(proof.transaction_count, 0);
    assert!(proof.transaction_hashes.is_empty());
}

#[test]
fn encoding_is_repeatable() {
    let a = account(3, 12345);
    let (mut x, mut y) = (Vec::new(), Vec::new());
    a.encode(&mut x);
    a.encode(&mut y);
    assert_eq!(x, y);
    let t = tx(addr(1), addr(2), 7, 8, 9);
    let (mut u, mut v) = (Vec::new(), Vec::new());
    t.encode(&mut u);
    t.encode(&mut v);
    assert_eq!(u, v);
    let ledger = vec![account(1, 5), account(2, 6)];
    assert_eq!(compute_state_root(&ledger).bytes, compute_state_root(&ledger.clone()).bytes);
}

#[test]
fn swapping_accounts_changes_root() {
    let ledger = vec![account(1, 5), account(2, 6)];
    let swapped = vec![account(2, 6), account(1, 5)];
    assert_ne!(compute_state_root(&ledger).bytes, compute_state_root(&swapped).bytes);
}

#[test]
fn genesis_account_encoding() {
    let mut out = vec![0xee];
    genesis_ledger()[0].encode(&mut out);
    let mut expected = vec![0xee, 0x94];
    expected.extend([0u8; 20]);
    expected.extend([0x83, 0x0f, 0x42, 0x40, 0x80, 0xa0]);
    expected.extend([0u8; 32]);
    expected.push(0xa0);
    expected.extend([0u8; 32]);
    assert_eq!(out, expected);
}

#[test]
fn transaction_encoding_fields() {
    let mut t = tx(addr(0x11), addr(0x22), 0x7f, 0x80, 0);
    t.data = vec![0x42; 60];
    t.nonce = 0x0100;
    let mut out = Vec::new();
    t.encode(&mut out);
    let mut expected = vec![0x94];
    expected.extend([0x11u8; 20]);
    expected.push(0x94);
    expected.extend([0x22u8; 20]);
    expected.extend([0x7f, 0xb8, 60]);
    expected.extend([0x42u8; 60]);
    expected.extend([0x82, 0x01, 0x00, 0x81, 0x80, 0x80]);
    assert_eq!(out, expected);
}

#[test]
fn short_payloads_encode() {
    let mut t = tx(addr(1), addr(2), 0, 0, 0);
    t.data = vec![0x05];
    let mut out = Vec::new();
    t.encode(&mut out);
    assert_eq!(&out[42..], &[0x80, 0x05, 0x80, 0x80, 0x80]);
    t.data = vec![0x85];
    let mut out = Vec::new();
    t.encode(&mut out);
    assert_eq!(&out[42..], &[0x80, 0x81, 0x85, 0x80, 0x80, 0x80]);
}

#[test]
fn keccak_of_empty_input() {
    let h = keccak(&vec![]);
    assert_eq!(hex(&h.bytes), "c5d2460186f7233c927e7db2dcc703c0e500b653ca82273b7bfad8045d85a470");
}

#[test]
fn state_root_of_empty_ledger() {
    assert_eq!(compute_state_root(&[]).bytes, keccak(&vec![]).bytes);
}

#[test]
fn wide_arithmetic() {
    let a = Uint256 { limbs: [u64::MAX, 0, 0, 0] };
    assert_eq!(u256_checked_add(&a, &amount(1)).unwrap().limbs, [0, 1, 0, 0]);
    assert_eq!(u256_checked_sub(&amount(0), &amount(1)).map(|x| x.limbs), None);
    assert_eq!(u256_checked_sub(&amount(9), &amount(4)).unwrap().limbs, [5, 0, 0, 0]);
    let p = u256_checked_mul(&u256_from_u64(u64::MAX), &u256_from_u64(u64::MAX)).unwrap();
    assert_eq!(p.limbs, [1, u64::MAX - 1, 0, 0]);
    let top = Uint256 { limbs: [0, 0, 0, 1 << 63] };
    assert!(u256_checked_mul(&top, &amount(2)).is_none());
    assert!(u256_checked_add(&top, &top).is_none());
}

#[test]
fn lookup_takes_first_match() {
    let ledger = vec![account(4, 1), account(5, 2), account(5, 3)];
    assert_eq!(find_account(&ledger, &addr(5)), Some(1));
    assert_eq!(find_account(&ledger, &addr(6)), None);
    assert!(addr(5).same_as(&addr(5)));
    assert!(!addr(5).same_as(&addr(6)));
}

#[test]
fn record_counts_hashes() {
    let h = Hash32 { bytes: [3; 32] };
    let r = build_record(h, h, 4, vec![h, h, h]);
    assert_eq!(r.transaction_count, 3);
    assert_eq!(r.batch_index, 4);
}
