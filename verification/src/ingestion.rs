//! The batch assembler: every source file is parsed by the fallback
//! dispatcher, its records normalized and fingerprinted, and the
//! fingerprints already in the ledger dropped; what is left forms the
//! file's batch. A file whose transactions are all already known yields an
//! empty batch marked entirely redundant — to be acknowledged, not
//! uploaded. Directories are grouped per institution by a fixed
//! directory-name-to-id mapping, unknown names mapping to the sentinel id.

use vstd::prelude::*;

use crate::hashing::{hash_transaction_data, spec_fingerprint};
use crate::ledger::{spec_dedup, string_vec_contains, HashLedger};
use crate::parser::{
    parse_ofx_with_fallback, spec_parse_with_fallback, spec_to_transport, ParseError,
    RawRecordView,
};
use crate::strutil::str_eq;
use crate::transport::{TransactionTransport, TransactionView};

verus! {

/// Institution id of the `amex` directory.
pub const AMEX_INSTITUTION_ID: i32 = 1;

/// Institution id of the `citizens` directory.
pub const CITIZENS_INSTITUTION_ID: i32 = 2;

/// Institution id of the `capitalone` directory.
pub const CAPITAL_ONE_INSTITUTION_ID: i32 = 3;

/// Institution id of the `apple` directory.
pub const APPLE_INSTITUTION_ID: i32 = 4;

/// Institution id of the `chase` directory.
pub const CHASE_INSTITUTION_ID: i32 = 5;

/// The sentinel id an unrecognized directory name maps to.
pub const UNKNOWN_INSTITUTION_ID: i32 = 0;

/// The fixed directory-name-to-institution mapping; unknown names map to
/// the sentinel rather than failing.
pub open spec fn spec_institution_id(name: Seq<char>) -> i32 {
    if name == "amex"@ {
        AMEX_INSTITUTION_ID
    } else if name == "citizens"@ {
        CITIZENS_INSTITUTION_ID
    } else if name == "capitalone"@ {
        CAPITAL_ONE_INSTITUTION_ID
    } else if name == "apple"@ {
        APPLE_INSTITUTION_ID
    } else if name == "chase"@ {
        CHASE_INSTITUTION_ID
    } else {
        UNKNOWN_INSTITUTION_ID
    }
}

/// Maps a directory name to its institution id, per
/// [`spec_institution_id`].
pub fn institution_id_for(name: &str) -> (r: i32)
    ensures
        r == spec_institution_id(name@),
{
    if str_eq(name, "amex") {
        AMEX_INSTITUTION_ID
    } else if str_eq(name, "citizens") {
        CITIZENS_INSTITUTION_ID
    } else if str_eq(name, "capitalone") {
        CAPITAL_ONE_INSTITUTION_ID
    } else if str_eq(name, "apple") {
        APPLE_INSTITUTION_ID
    } else if str_eq(name, "chase") {
        CHASE_INSTITUTION_ID
    } else {
        UNKNOWN_INSTITUTION_ID
    }
}

/// Mathematical value of a [`SourceFile`].
#[verifier::ext_equal]
pub struct SourceFileView {
    pub name: Seq<char>,
    pub content: Seq<char>,
}

/// One statement file: its name (for error reports) and its full textual
/// content.
#[derive(Debug)]
pub struct SourceFile {
    pub name: String,
    pub content: String,
}

impl View for SourceFile {
    type V = SourceFileView;

    open spec fn view(&self) -> SourceFileView {
        SourceFileView { name: self.name@, content: self.content@ }
    }
}

impl DeepView for SourceFile {
    type V = SourceFileView;

    open spec fn deep_view(&self) -> SourceFileView {
        self.view()
    }
}

/// Mathematical value of a [`SourceDirectory`].
#[verifier::ext_equal]
pub struct SourceDirectoryView {
    pub name: Seq<char>,
    pub files: Seq<SourceFileView>,
}

/// One institution's directory: its configured name and the files read
/// from it.
#[derive(Debug)]
pub struct SourceDirectory {
    pub name: String,
    pub files: Vec<SourceFile>,
}

impl View for SourceDirectory {
    type V = SourceDirectoryView;

    open spec fn view(&self) -> SourceDirectoryView {
        SourceDirectoryView { name: self.name@, files: self.files.deep_view() }
    }
}

impl DeepView for SourceDirectory {
    type V = SourceDirectoryView;

    open spec fn deep_view(&self) -> SourceDirectoryView {
        self.view()
    }
}

/// Mathematical value of a [`TransactionBatch`].
#[verifier::ext_equal]
pub struct BatchView {
    pub transactions: Seq<TransactionView>,
    pub hashes: Seq<Seq<char>>,
    pub all_transactions_exist: bool,
}

/// One source file's batch: the transactions whose fingerprint is new, the
/// new fingerprints themselves (first occurrences, in order), and whether
/// everything the file held was already known.
#[derive(Debug)]
pub struct TransactionBatch {
    pub transactions: Vec<TransactionTransport>,
    pub hashes: Vec<String>,
    pub all_transactions_exist: bool,
}

impl View for TransactionBatch {
    type V = BatchView;

    open spec fn view(&self) -> BatchView {
        BatchView {
            transactions: self.transactions.deep_view(),
            hashes: self.hashes.deep_view(),
            all_transactions_exist: self.all_transactions_exist,
        }
    }
}

impl DeepView for TransactionBatch {
    type V = BatchView;

    open spec fn deep_view(&self) -> BatchView {
        self.view()
    }
}

impl TransactionBatch {
    /// An empty batch, not marked redundant.
    pub fn new() -> (r: TransactionBatch)
        ensures
            r@.transactions == Seq::<TransactionView>::empty(),
            r@.hashes == Seq::<Seq<char>>::empty(),
            r@.all_transactions_exist == false,
    {
        let r = TransactionBatch {
            transactions: Vec::new(),
            hashes: Vec::new(),
            all_transactions_exist: false,
        };
        proof {
            assert(r@.transactions =~= Seq::<TransactionView>::empty());
            assert(r@.hashes =~= Seq::<Seq<char>>::empty());
        }
        r
    }
}

/// Mathematical value of a [`TransactionBatchHolder`].
#[verifier::ext_equal]
pub struct HolderView {
    pub transaction_batches: Seq<BatchView>,
    pub institution_id: i32,
}

/// One institution's batches, tagged with its id.
#[derive(Debug)]
pub struct TransactionBatchHolder {
    pub transaction_batches: Vec<TransactionBatch>,
    pub institution_id: i32,
}

impl View for TransactionBatchHolder {
    type V = HolderView;

    open spec fn view(&self) -> HolderView {
        HolderView {
            transaction_batches: self.transaction_batches.deep_view(),
            institution_id: self.institution_id,
        }
    }
}

impl DeepView for TransactionBatchHolder {
    type V = HolderView;

    open spec fn deep_view(&self) -> HolderView {
        self.view()
    }
}

/// Normalization, as a function value for mapping over record sequences.
pub open spec fn spec_to_txn_fn() -> spec_fn(RawRecordView) -> TransactionView {
    |r: RawRecordView| spec_to_transport(r)
}

/// The predicate "this transaction's fingerprint is not in the ledger".
pub open spec fn spec_is_new_fn(ledger: Seq<Seq<char>>) -> spec_fn(TransactionView) -> bool {
    |t: TransactionView| !ledger.contains(spec_fingerprint(t))
}

/// Fingerprinting, as a function value for mapping over transactions.
pub open spec fn spec_fp_fn() -> spec_fn(TransactionView) -> Seq<char> {
    |t: TransactionView| spec_fingerprint(t)
}

/// The transactions of a file that are new to the ledger: every record
/// normalized, those whose fingerprint the ledger holds dropped, order and
/// in-file duplicates kept.
pub open spec fn spec_new_transactions(
    recs: Seq<RawRecordView>,
    ledger: Seq<Seq<char>>,
) -> Seq<TransactionView> {
    recs.map_values(spec_to_txn_fn()).filter(spec_is_new_fn(ledger))
}

/// The new fingerprints of a file: those of its new transactions, first
/// occurrences in order.
pub open spec fn spec_new_fingerprints(
    recs: Seq<RawRecordView>,
    ledger: Seq<Seq<char>>,
) -> Seq<Seq<char>> {
    spec_dedup(spec_new_transactions(recs, ledger).map_values(spec_fp_fn()))
}

/// What the assembler makes of one file against a ledger: `None` when no
/// strategy can read it, otherwise the batch of its new transactions,
/// marked entirely redundant exactly when nothing was new.
#[verifier::opaque]
pub open spec fn spec_process_file(content: Seq<char>, ledger: Seq<Seq<char>>) -> Option<
    BatchView,
> {
    match spec_parse_with_fallback(content) {
        Some(recs) => Some(
            BatchView {
                transactions: spec_new_transactions(recs, ledger),
                hashes: spec_new_fingerprints(recs, ledger),
                all_transactions_exist: spec_new_transactions(recs, ledger).len() == 0,
            },
        ),
        None => None,
    }
}

/// Parses one file, normalizes and fingerprints its records, and keeps
/// what the ledger does not already hold, per [`spec_process_file`]. The
/// error of an unreadable file names it.
pub fn process_file(file_content: &str, file_name: &str, ledger: &HashLedger) -> (r: Result<
    TransactionBatch,
    ParseError,
>)
    ensures
        match r {
            Ok(b) => spec_process_file(file_content@, ledger@) == Some(b.deep_view()),
            Err(e) => spec_process_file(file_content@, ledger@) is None && e.file_name@
                == file_name@,
        },
{
    proof {
        reveal(spec_process_file);
    }
    let recs = match parse_ofx_with_fallback(file_content, file_name) {
        Ok(v) => v,
        Err(e) => {
            return Err(e);
        },
    };
    let ghost recsd = recs.deep_view();
    let ghost to_txn = spec_to_txn_fn();
    let ghost is_new = spec_is_new_fn(ledger@);
    let ghost to_fp = spec_fp_fn();
    let mut txn_transports: Vec<TransactionTransport> = Vec::new();
    let mut new_hashes: Vec<String> = Vec::new();
    let n = recs.len();
    let mut i: usize = 0;
    proof {
        reveal(Seq::filter);
        assert(recsd.take(0) =~= Seq::<RawRecordView>::empty());
        assert(txn_transports.deep_view() =~= Seq::<TransactionView>::empty());
        assert(new_hashes.deep_view() =~= Seq::<Seq<char>>::empty());
        assert(recsd.take(0).map_values(to_txn) =~= Seq::<TransactionView>::empty());
        assert(recsd.take(0).map_values(to_txn).filter(is_new) =~= Seq::<TransactionView>::empty());
        assert(recsd.take(0).map_values(to_txn).filter(is_new).map_values(to_fp)
            =~= Seq::<Seq<char>>::empty());
    }
    while i < n
        invariant
            n == recs@.len(),
            recsd == recs.deep_view(),
            txn_transports.deep_view() == recsd.take(i as int).map_values(to_txn).filter(is_new),
            new_hashes.deep_view() == spec_dedup(
                recsd.take(i as int).map_values(to_txn).filter(is_new).map_values(to_fp),
            ),
            0 <= i <= n,
            to_txn == spec_to_txn_fn(),
            is_new == spec_is_new_fn(ledger@),
            to_fp == spec_fp_fn(),
        decreases n - i,
    {
        let ghost prev_txns = txn_transports.deep_view();
        let ghost prev_hashes = new_hashes.deep_view();
        proof {
            assert(recsd[i as int] == recs@[i as int]@);
        }
        let xport = recs[i].to_transport();
        let ghost xv = xport@;
        let h = hash_transaction_data(&xport);
        let ghost hv = h@;
        let known = ledger.contains_hash(h.as_str());
        if !known {
            txn_transports.push(xport);
            proof {
                assert(txn_transports.deep_view() =~= prev_txns.push(xv));
            }
            if !string_vec_contains(&new_hashes, h.as_str()) {
                new_hashes.push(h);
                proof {
                    assert(new_hashes.deep_view() =~= prev_hashes.push(hv));
                }
            }
        }
        proof {
            reveal(Seq::filter);
            let mapped = recsd.take(i as int).map_values(to_txn);
            let mapped1 = recsd.take(i + 1).map_values(to_txn);
            assert(to_txn(recsd[i as int]) == xv);
            assert(mapped1 =~= mapped.push(xv));
            assert(mapped1.drop_last() == mapped);
            assert(mapped1.last() == xv);
            assert(mapped1.len() > 0);
            let filtered = mapped.filter(is_new);
            let filtered1 = mapped1.filter(is_new);
            assert(filtered1 == if is_new(mapped1.last()) {
                mapped1.drop_last().filter(is_new).push(mapped1.last())
            } else {
                mapped1.drop_last().filter(is_new)
            });
            assert(is_new(xv) == !ledger@.contains(spec_fingerprint(xv)));
            assert(spec_fingerprint(xv) == hv);
            if !known {
                assert(filtered1 == filtered.push(xv));
                let fps = filtered.map_values(to_fp);
                let fps1 = filtered1.map_values(to_fp);
                assert(to_fp(xv) == hv);
                assert(fps1 =~= fps.push(hv));
                assert(fps1.drop_last() == fps);
                assert(fps1.last() == hv);
            } else {
                assert(filtered1 == filtered);
            }
        }
        i = i + 1;
    }
    let all_exist = txn_transports.len() == 0;
    let batch = TransactionBatch {
        transactions: txn_transports,
        hashes: new_hashes,
        all_transactions_exist: all_exist,
    };
    proof {
        assert(recsd.take(n as int) =~= recsd);
        assert(batch.deep_view() =~= BatchView {
            transactions: spec_new_transactions(recsd, ledger@),
            hashes: spec_new_fingerprints(recsd, ledger@),
            all_transactions_exist: spec_new_transactions(recsd, ledger@).len() == 0,
        });
    }
    Ok(batch)
}

/// Assembles one batch per file of a directory, per [`spec_process_file`];
/// the first unreadable file fails the directory, the error naming it.
#[verifier::rlimit(100)]
pub fn process_directory(files: &Vec<SourceFile>, ledger: &HashLedger) -> (r: Result<
    Vec<TransactionBatch>,
    ParseError,
>)
    ensures
        match r {
            Ok(v) => v@.len() == files@.len() && forall|i: int|
                0 <= i < files@.len() ==> spec_process_file(
                    files.deep_view()[i].content,
                    ledger@,
                ) == Some(#[trigger] v.deep_view()[i]),
            Err(e) => exists|i: int|
                0 <= i < files@.len() && spec_process_file(
                    #[trigger] files.deep_view()[i].content,
                    ledger@,
                ) is None && e.file_name@ == files.deep_view()[i].name && (forall|j: int|
                    0 <= j < i ==> spec_process_file(
                        #[trigger] files.deep_view()[j].content,
                        ledger@,
                    ) is Some),
        },
{
    let mut batches: Vec<TransactionBatch> = Vec::new();
    let n = files.len();
    let mut i: usize = 0;
    while i < n
        invariant
            n == files@.len(),
            0 <= i <= n,
            batches@.len() == i,
            forall|k: int|
                0 <= k < i ==> spec_process_file(files.deep_view()[k].content, ledger@) == Some(
                    #[trigger] batches.deep_view()[k],
                ),
        decreases n - i,
    {
        let ghost prev = batches.deep_view();
        proof {
            assert(files.deep_view()[i as int] == files@[i as int]@);
        }
        let f = &files[i];
        match process_file(f.content.as_str(), f.name.as_str(), ledger) {
            Ok(b) => {
                let ghost bv = b.deep_view();
                batches.push(b);
                proof {
                    assert(batches.deep_view() =~= prev.push(bv));
                }
            },
            Err(e) => {
                proof {
                    assert forall|j: int| 0 <= j < i implies spec_process_file(
                        #[trigger] files.deep_view()[j].content,
                        ledger@,
                    ) is Some by {
                        assert(spec_process_file(files.deep_view()[j].content, ledger@) == Some(
                            batches.deep_view()[j],
                        ));
                    }
                    assert(spec_process_file(files.deep_view()[i as int].content, ledger@) is None
                        && e.file_name@ == files.deep_view()[i as int].name);
                }
                return Err(e);
            },
        }
        i = i + 1;
    }
    Ok(batches)
}

/// How one institution's result relates to its directory: the fixed id for
/// its name, and one batch per file, each per [`spec_process_file`].
pub open spec fn spec_holder_matches(
    h: HolderView,
    d: SourceDirectoryView,
    ledger: Seq<Seq<char>>,
) -> bool {
    &&& h.institution_id == spec_institution_id(d.name)
    &&& h.transaction_batches.len() == d.files.len()
    &&& forall|j: int|
        0 <= j < d.files.len() ==> spec_process_file(d.files[j].content, ledger) == Some(
            #[trigger] h.transaction_batches[j],
        )
}

/// Walks the configured directories and assembles every institution's
/// batches against the ledger. Each directory maps to its fixed
/// institution id, unknown names to the sentinel. The first file no
/// strategy can read fails the run with an error naming it.
#[verifier::rlimit(100)]
pub fn ingestinator(dirs: &Vec<SourceDirectory>, ledger: &HashLedger) -> (r: Result<
    Vec<TransactionBatchHolder>,
    ParseError,
>)
    ensures
        match r {
            Ok(v) => v@.len() == dirs@.len() && forall|i: int|
                0 <= i < dirs@.len() ==> spec_holder_matches(
                    #[trigger] v.deep_view()[i],
                    dirs.deep_view()[i],
                    ledger@,
                ),
            Err(e) => exists|i: int, j: int|
                0 <= i < dirs@.len() && 0 <= j < dirs.deep_view()[i].files.len()
                    && spec_process_file(
                    #[trigger] dirs.deep_view()[i].files[j].content,
                    ledger@,
                ) is None && e.file_name@ == dirs.deep_view()[i].files[j].name,
        },
{
    let mut holders: Vec<TransactionBatchHolder> = Vec::new();
    let n = dirs.len();
    let mut i: usize = 0;
    while i < n
        invariant
            n == dirs@.len(),
            0 <= i <= n,
            holders@.len() == i,
            forall|k: int|
                0 <= k < i ==> spec_holder_matches(
                    #[trigger] holders.deep_view()[k],
                    dirs.deep_view()[k],
                    ledger@,
                ),
        decreases n - i,
    {
        let ghost prev = holders.deep_view();
        proof {
            assert(dirs.deep_view()[i as int] == dirs@[i as int]@);
        }
        let d = &dirs[i];
        let institution_id = institution_id_for(d.name.as_str());
        match process_directory(&d.files, ledger) {
            Ok(batches) => {
                let holder = TransactionBatchHolder { transaction_batches: batches, institution_id };
                let ghost hv = holder.deep_view();
                proof {
                    assert(spec_holder_matches(hv, dirs.deep_view()[i as int], ledger@));
                }
                holders.push(holder);
                proof {
                    assert(holders.deep_view() =~= prev.push(hv));
                }
            },
            Err(e) => {
                return Err(e);
            },
        }
        i = i + 1;
    }
    Ok(holders)
}

proof fn lemma_filter_none<A>(s: Seq<A>, pred: spec_fn(A) -> bool)
    requires
        forall|i: int| 0 <= i < s.len() ==> !pred(#[trigger] s[i]),
    ensures
        s.filter(pred) == Seq::<A>::empty(),
    decreases s.len(),
{
    reveal(Seq::filter);
    if s.len() == 0 {
        assert(s.filter(pred) =~= Seq::<A>::empty());
    } else {
        assert(forall|i: int| 0 <= i < s.drop_last().len() ==> s.drop_last()[i] == s[i]);
        lemma_filter_none(s.drop_last(), pred);
        assert(!pred(s.last()));
        assert(s.filter(pred) == s.drop_last().filter(pred));
    }
}

/// Re-running the assembler is idempotent: a readable file all of whose
/// transactions' fingerprints the ledger already holds yields a batch with
/// no transactions, no new fingerprints, and the entirely-redundant mark
/// set.
pub proof fn lemma_reingestion_idempotent(content: Seq<char>, ledger: Seq<Seq<char>>)
    requires
        spec_parse_with_fallback(content) is Some,
        forall|i: int|
            0 <= i < spec_parse_with_fallback(content)->0.len() ==> ledger.contains(
                spec_fingerprint(
                    spec_to_transport(#[trigger] spec_parse_with_fallback(content)->0[i]),
                ),
            ),
    ensures
        spec_process_file(content, ledger) == Some(
            BatchView {
                transactions: Seq::<TransactionView>::empty(),
                hashes: Seq::<Seq<char>>::empty(),
                all_transactions_exist: true,
            },
        ),
{
    reveal(spec_process_file);
    let recs = spec_parse_with_fallback(content)->0;
    let to_txn = spec_to_txn_fn();
    let is_new = spec_is_new_fn(ledger);
    let mapped = recs.map_values(to_txn);
    assert forall|i: int| 0 <= i < mapped.len() implies !is_new(#[trigger] mapped[i]) by {
        assert(mapped[i] == to_txn(recs[i]));
        assert(to_txn(recs[i]) == spec_to_transport(recs[i]));
        assert(is_new(mapped[i]) == !ledger.contains(spec_fingerprint(mapped[i])));
    }
    lemma_filter_none(mapped, is_new);
    assert(spec_new_transactions(recs, ledger) == Seq::<TransactionView>::empty());
    assert(spec_new_transactions(recs, ledger).map_values(spec_fp_fn())
        =~= Seq::<Seq<char>>::empty());
}

/// Re-running the assembler over an unchanged directory is idempotent:
/// when the ledger already holds every fingerprint of every file's parsed
/// transactions, every file's batch carries no transactions, no new
/// fingerprints, and the entirely-redundant mark set.
pub proof fn lemma_directory_reingestion_idempotent(
    files: Seq<SourceFileView>,
    ledger: Seq<Seq<char>>,
)
    requires
        forall|i: int|
            0 <= i < files.len() ==> spec_parse_with_fallback(#[trigger] files[i].content) is Some,
        forall|i: int, j: int|
            0 <= i < files.len() && 0 <= j < spec_parse_with_fallback(files[i].content)->0.len()
                ==> ledger.contains(
                spec_fingerprint(
                    spec_to_transport(
                        #[trigger] spec_parse_with_fallback(files[i].content)->0[j],
                    ),
                ),
            ),
    ensures
        forall|i: int|
            0 <= i < files.len() ==> spec_process_file(#[trigger] files[i].content, ledger)
                == Some(
                BatchView {
                    transactions: Seq::<TransactionView>::empty(),
                    hashes: Seq::<Seq<char>>::empty(),
                    all_transactions_exist: true,
                },
            ),
{
    assert forall|i: int| 0 <= i < files.len() implies spec_process_file(
        #[trigger] files[i].content,
        ledger,
    ) == Some(
        BatchView {
            transactions: Seq::<TransactionView>::empty(),
            hashes: Seq::<Seq<char>>::empty(),
            all_transactions_exist: true,
        },
    ) by {
        assert forall|j: int|
            0 <= j < spec_parse_with_fallback(files[i].content)->0.len() implies ledger.contains(
            spec_fingerprint(
                spec_to_transport(#[trigger] spec_parse_with_fallback(files[i].content)->0[j]),
            ),
        ) by {}
        lemma_reingestion_idempotent(files[i].content, ledger);
    }
}

/// A file holding a single transaction whose fingerprint the ledger
/// already holds yields an empty batch marked entirely redundant.
pub proof fn lemma_known_transaction_skipped(
    content: Seq<char>,
    ledger: Seq<Seq<char>>,
    rec: RawRecordView,
)
    requires
        spec_parse_with_fallback(content) == Some(seq![rec]),
        ledger.contains(spec_fingerprint(spec_to_transport(rec))),
    ensures
        spec_process_file(content, ledger) == Some(
            BatchView {
                transactions: Seq::<TransactionView>::empty(),
                hashes: Seq::<Seq<char>>::empty(),
                all_transactions_exist: true,
            },
        ),
{
    reveal(spec_process_file);
    let recs = spec_parse_with_fallback(content)->0;
    assert(recs == seq![rec]);
    assert forall|i: int| 0 <= i < recs.len() implies ledger.contains(
        spec_fingerprint(spec_to_transport(#[trigger] recs[i])),
    ) by {
        assert(recs[i] == rec);
    }
    lemma_reingestion_idempotent(content, ledger);
}

} // verus!
