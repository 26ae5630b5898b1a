use spend_broadcaster::store::MemoryStore;
use spend_broadcaster::tx::{SpendTransaction, TxId};

fn txid(byte: u8) -> TxId {
    TxId { bytes: [byte; 32] }
}

fn tx(byte: u8) -> SpendTransaction {
    SpendTransaction { txid: txid(byte), raw: vec![byte, byte.wrapping_add(1), 0xff] }
}

#[test]
fn new_store_is_empty() {
    let store = MemoryStore::new();
    assert_eq!(store.fetch_pending(), Ok(vec![]));
    assert!(!store.is_broadcasted(&txid(1)));
}

#[test]
fn added_transactions_are_pending_in_order() {
    let mut store = MemoryStore::new();
    assert!(store.insert(tx(3)));
    assert!(store.insert(tx(1)));
    assert!(store.insert(tx(2)));
    assert_eq!(store.fetch_pending(), Ok(vec![tx(3), tx(1), tx(2)]));
}

#[test]
fn fetch_does_not_change_the_store() {
    let mut store = MemoryStore::new();
    store.insert(tx(1));
    assert_eq!(store.fetch_pending(), Ok(vec![tx(1)]));
    assert_eq!(store.fetch_pending(), Ok(vec![tx(1)]));
}

#[test]
fn same_identifier_is_added_once() {
    let mut store = MemoryStore::new();
    assert!(store.insert(tx(1)));
    let again = SpendTransaction { txid: txid(1), raw: vec![9, 9] };
    assert!(!store.insert(again));
    assert_eq!(store.fetch_pending(), Ok(vec![tx(1)]));
}

#[test]
fn identifiers_that_differ_in_one_byte_are_distinct() {
    let mut first = [0u8; 32];
    let mut second = [0u8; 32];
    first[31] = 1;
    second[31] = 2;
    let mut store = MemoryStore::new();
    assert!(store.insert(SpendTransaction { txid: TxId { bytes: first }, raw: vec![1] }));
    assert!(store.insert(SpendTransaction { txid: TxId { bytes: second }, raw: vec![2] }));
    assert_eq!(store.mark_broadcasted(&TxId { bytes: second }), Ok(()));
    assert_eq!(
        store.fetch_pending(),
        Ok(vec![SpendTransaction { txid: TxId { bytes: first }, raw: vec![1] }])
    );
    assert!(TxId { bytes: first }.same(&TxId { bytes: first }));
    assert!(!TxId { bytes: first }.same(&TxId { bytes: second }));
}

#[test]
fn marked_transaction_is_not_pending() {
    let mut store = MemoryStore::new();
    store.insert(tx(1));
    store.insert(tx(2));
    store.insert(tx(3));
    assert_eq!(store.mark_broadcasted(&txid(2)), Ok(()));
    assert_eq!(store.fetch_pending(), Ok(vec![tx(1), tx(3)]));
    assert!(store.is_broadcasted(&txid(2)));
    assert!(!store.is_broadcasted(&txid(1)));
    assert!(!store.is_broadcasted(&txid(3)));
}

#[test]
fn marking_twice_neither_fails_nor_brings_back() {
    let mut store = MemoryStore::new();
    store.insert(tx(1));
    store.insert(tx(2));
    assert_eq!(store.mark_broadcasted(&txid(1)), Ok(()));
    let after_first = store.fetch_pending();
    assert_eq!(store.mark_broadcasted(&txid(1)), Ok(()));
    assert_eq!(store.fetch_pending(), after_first);
    assert_eq!(store.fetch_pending(), Ok(vec![tx(2)]));
    assert!(store.is_broadcasted(&txid(1)));
}

#[test]
fn marking_an_unknown_identifier_changes_nothing() {
    let mut store = MemoryStore::new();
    store.insert(tx(1));
    assert_eq!(store.mark_broadcasted(&txid(7)), Ok(()));
    assert_eq!(store.fetch_pending(), Ok(vec![tx(1)]));
    assert!(!store.is_broadcasted(&txid(7)));
}

#[test]
fn marked_identifier_cannot_be_added_again() {
    let mut store = MemoryStore::new();
    store.insert(tx(1));
    store.mark_broadcasted(&txid(1)).unwrap();
    assert!(!store.insert(tx(1)));
    assert_eq!(store.fetch_pending(), Ok(vec![]));
    assert!(store.is_broadcasted(&txid(1)));
}

#[test]
fn later_marks_do_not_bring_back_an_earlier_one() {
    let mut store = MemoryStore::new();
    store.insert(tx(1));
    store.insert(tx(2));
    store.insert(tx(3));
    store.mark_broadcasted(&txid(1)).unwrap();
    store.mark_broadcasted(&txid(3)).unwrap();
    store.mark_broadcasted(&txid(1)).unwrap();
    assert_eq!(store.fetch_pending(), Ok(vec![tx(2)]));
}

#[test]
fn duplicate_is_equal_to_its_source() {
    let source = tx(5);
    let copy = source.duplicate();
    assert_eq!(copy, source);
    assert_eq!(copy.raw, vec![5, 6, 0xff]);
}
