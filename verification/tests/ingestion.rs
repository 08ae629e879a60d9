use moneyd::hashing::hash_transaction_data;
use moneyd::ingestion::{
    ingestinator, institution_id_for, process_directory, process_file, SourceDirectory,
    SourceFile, TransactionBatch,
};
use moneyd::ledger::HashLedger;
use moneyd::parser::TempTranFromXml;
use moneyd::{CREDIT_TYPE_CODE, DEBIT_TYPE_CODE};

const SINGLE_TXN_FILE: &str =
    "<OFX>\n<STMTTRN>\n<TRNTYPE>DEBIT\n<DTPOSTED>20251212120000\n<TRNAMT>-999.99\n<FITID>1\n<NAME>Payment Place\n<MEMO>Preauthorized Debit\n</STMTTRN>\n</OFX>";

const TWO_TXN_FILE: &str =
    "<OFX>\n<STMTTRN>\n<TRNTYPE>DEBIT\n<DTPOSTED>20251212120000\n<TRNAMT>-999.99\n<FITID>1\n<MEMO>First\n</STMTTRN>\n<STMTTRN>\n<TRNTYPE>CREDIT\n<DTPOSTED>20251213120000\n<TRNAMT>5.00\n<FITID>2\n<MEMO>Second\n</STMTTRN>\n</OFX>";

#[test]
fn institution_ids_are_fixed() {
    assert_eq!(institution_id_for("amex"), 1);
    assert_eq!(institution_id_for("citizens"), 2);
    assert_eq!(institution_id_for("capitalone"), 3);
    assert_eq!(institution_id_for("apple"), 4);
    assert_eq!(institution_id_for("chase"), 5);
    assert_eq!(institution_id_for("somebank"), 0);
    assert_eq!(institution_id_for(""), 0);
}

#[test]
fn batch_new_is_empty_and_not_redundant() {
    let b = TransactionBatch::new();
    assert!(b.transactions.is_empty());
    assert!(b.hashes.is_empty());
    assert!(!b.all_transactions_exist);
}

#[test]
fn to_transport_normalizes_fields() {
    let rec = TempTranFromXml {
        transaction_type: "DEBIT".to_string(),
        date_posted: "20251212120000".to_string(),
        transaction_amount: "-999.99".to_string(),
        refnum: "42".to_string(),
        name: "Payment Place".to_string(),
        memo: "Preauthorized Debit".to_string(),
    };
    let t = rec.to_transport();
    assert_eq!(t.statement_id, None);
    assert_eq!(t.description, "Preauthorized Debit");
    assert_eq!(t.amount, -99999);
    assert_eq!(t.transaction_date, "2025-12-12T00:00:00+00:00");
    assert_eq!(t.refnum, "42");
    assert_eq!(t.transaction_type_lookup_code, DEBIT_TYPE_CODE);
}

#[test]
fn type_text_classifies_into_codes() {
    let mut rec = TempTranFromXml::new();
    rec.transaction_type = "CREDIT".to_string();
    assert_eq!(rec.to_transport().transaction_type_lookup_code, CREDIT_TYPE_CODE);
    rec.transaction_type = "DIRECTDEP".to_string();
    assert_eq!(rec.to_transport().transaction_type_lookup_code, CREDIT_TYPE_CODE);
    rec.transaction_type = "DEBIT".to_string();
    assert_eq!(rec.to_transport().transaction_type_lookup_code, DEBIT_TYPE_CODE);
    rec.transaction_type = "SOMETHINGELSE".to_string();
    assert_eq!(rec.to_transport().transaction_type_lookup_code, DEBIT_TYPE_CODE);
}

#[test]
fn fresh_file_yields_new_transactions() {
    let ledger = HashLedger::new();
    let batch = process_file(TWO_TXN_FILE, "two.ofx", &ledger).unwrap();
    assert_eq!(batch.transactions.len(), 2);
    assert_eq!(batch.hashes.len(), 2);
    assert!(!batch.all_transactions_exist);
    assert_eq!(batch.transactions[0].description, "First");
    assert_eq!(batch.transactions[1].description, "Second");
    assert_eq!(
        batch.hashes[0],
        hash_transaction_data(&batch.transactions[0])
    );
}

#[test]
fn known_transaction_is_skipped() {
    // a ledger pre-populated with the fingerprint of the file's only transaction
    let mut ledger = HashLedger::new();
    let first_pass = process_file(SINGLE_TXN_FILE, "one.ofx", &ledger).unwrap();
    assert_eq!(first_pass.transactions.len(), 1);
    ledger.add_multiple_hashes(&first_pass.hashes);

    let second_pass = process_file(SINGLE_TXN_FILE, "one.ofx", &ledger).unwrap();
    assert!(second_pass.transactions.is_empty());
    assert!(second_pass.hashes.is_empty());
    assert!(second_pass.all_transactions_exist);
}

#[test]
fn unreadable_file_fails_with_its_name() {
    let ledger = HashLedger::new();
    let err = process_file("not a statement", "mystery.txt", &ledger).err().unwrap();
    assert_eq!(err.file_name, "mystery.txt");

    let files = vec![
        SourceFile { name: "good.ofx".to_string(), content: SINGLE_TXN_FILE.to_string() },
        SourceFile { name: "bad.ofx".to_string(), content: "garbage".to_string() },
    ];
    let err = process_directory(&files, &ledger).err().unwrap();
    assert_eq!(err.file_name, "bad.ofx");
}

#[test]
fn duplicate_within_file_keeps_one_fingerprint() {
    let duplicated = format!(
        "<OFX>\n{0}\n{0}\n</OFX>",
        "<STMTTRN>\n<TRNTYPE>DEBIT\n<DTPOSTED>20251212120000\n<TRNAMT>-1.00\n<FITID>9\n<MEMO>Same\n</STMTTRN>"
    );
    let ledger = HashLedger::new();
    let batch = process_file(duplicated.as_str(), "dup.ofx", &ledger).unwrap();
    // both occurrences ship, but they share one fingerprint
    assert_eq!(batch.transactions.len(), 2);
    assert_eq!(batch.hashes.len(), 1);
    assert!(!batch.all_transactions_exist);
}

#[test]
fn reingestion_is_idempotent() {
    let dirs = vec![
        SourceDirectory {
            name: "amex".to_string(),
            files: vec![
                SourceFile { name: "a1.ofx".to_string(), content: SINGLE_TXN_FILE.to_string() },
                SourceFile { name: "a2.ofx".to_string(), content: TWO_TXN_FILE.to_string() },
            ],
        },
        SourceDirectory {
            name: "somebank".to_string(),
            files: vec![
                SourceFile { name: "s1.ofx".to_string(), content: TWO_TXN_FILE.to_string() },
            ],
        },
    ];

    let mut ledger = HashLedger::new();
    let first_run = ingestinator(&dirs, &ledger).unwrap();
    assert_eq!(first_run.len(), 2);
    assert_eq!(first_run[0].institution_id, 1);
    assert_eq!(first_run[1].institution_id, 0);
    for holder in &first_run {
        for batch in &holder.transaction_batches {
            assert!(!batch.all_transactions_exist);
            ledger.add_multiple_hashes(&batch.hashes);
        }
    }

    // an unchanged directory tree against the fed ledger: nothing is new
    let second_run = ingestinator(&dirs, &ledger).unwrap();
    assert_eq!(second_run.len(), 2);
    for holder in &second_run {
        for batch in &holder.transaction_batches {
            assert!(batch.transactions.is_empty());
            assert!(batch.hashes.is_empty());
            assert!(batch.all_transactions_exist);
        }
    }
}
