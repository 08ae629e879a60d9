use moneyd::hashing::hash_transaction_data;
use moneyd::transport::TransactionTransport;

fn txn(description: &str, date: &str, amount: i32, refnum: &str) -> TransactionTransport {
    TransactionTransport {
        statement_id: None,
        description: description.to_string(),
        amount,
        transaction_date: date.to_string(),
        refnum: refnum.to_string(),
        transaction_type_lookup_code: 10,
    }
}

#[test]
fn fingerprint_matches_known_digest() {
    let t = txn("Coffee", "2025-12-12T00:00:00+00:00", -99999, "42");
    assert_eq!(
        hash_transaction_data(&t),
        "ca0c135f10b29df6b9fff255b4813f5250ae7c091962fdfbb454fc766c020856"
    );
    let empty = txn("", "", 0, "");
    assert_eq!(
        hash_transaction_data(&empty),
        "df3f619804a92fdb4057192dc43dd748ea778adc52bc498ce80524c014b81119"
    );
}

#[test]
fn fingerprint_is_deterministic() {
    let t = txn("Groceries", "2025-11-17T00:00:00+00:00", -4211, "ref-9");
    assert_eq!(hash_transaction_data(&t), hash_transaction_data(&t));

    // only the four fingerprinted fields matter
    let mut u = txn("Groceries", "2025-11-17T00:00:00+00:00", -4211, "ref-9");
    u.statement_id = Some(7);
    u.transaction_type_lookup_code = 20;
    assert_eq!(hash_transaction_data(&t), hash_transaction_data(&u));
}

#[test]
fn fingerprint_depends_on_each_field() {
    let base = txn("a", "b", 1, "c");
    let h = hash_transaction_data(&base);
    assert_ne!(h, hash_transaction_data(&txn("x", "b", 1, "c")));
    assert_ne!(h, hash_transaction_data(&txn("a", "x", 1, "c")));
    assert_ne!(h, hash_transaction_data(&txn("a", "b", 2, "c")));
    assert_ne!(h, hash_transaction_data(&txn("a", "b", 1, "x")));
}

#[test]
fn fingerprint_shape_is_hex() {
    let h = hash_transaction_data(&txn("shape", "date", 5, "r"));
    assert_eq!(h.len(), 64);
    assert!(h.chars().all(|c| c.is_ascii_hexdigit() && !c.is_ascii_uppercase()));
}

#[test]
fn fingerprint_set_ignores_order() {
    let a = txn("first", "2025-01-01T00:00:00+00:00", 100, "1");
    let b = txn("second", "2025-01-02T00:00:00+00:00", 200, "2");
    let mut forward = vec![hash_transaction_data(&a), hash_transaction_data(&b)];
    let mut backward = vec![hash_transaction_data(&b), hash_transaction_data(&a)];
    forward.sort();
    backward.sort();
    assert_eq!(forward, backward);
}
