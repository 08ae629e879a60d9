//! The content hasher: a stable fingerprint per transaction, used as the
//! deduplication key. The fingerprint is the hex-encoded SHA-256 digest of
//! the description bytes, the canonical date bytes, the little-endian bytes
//! of the amount, and the reference-number bytes, in that order. Two
//! transactions agreeing on those four fields are indistinguishable to the
//! ledger — deliberately, so a statement ingested twice collapses.

use vstd::prelude::*;

use sha2::Digest;

use crate::transport::{TransactionTransport, TransactionView};

verus! {

/// The SHA-256 digest of a byte string. A fixed function: the same bytes
/// give the same digest in every run and on every machine.
pub uninterp spec fn spec_sha256(data: Seq<u8>) -> Seq<u8>;

/// Relies on sha2::Sha256: the digest is 32 bytes and depends on the input
/// bytes alone.
#[verifier::external_body]
fn sha256_digest(data: &Vec<u8>) -> (r: Vec<u8>)
    ensures
        r@ == spec_sha256(data@),
        r@.len() == 32,
{
    let mut hasher = sha2::Sha256::new();
    hasher.update(data.as_slice());
    hasher.finalize().as_slice().to_vec()
}

/// The sixteen lower-case hex digits.
pub open spec fn spec_hex_chars() -> Seq<char> {
    seq!['0', '1', '2', '3', '4', '5', '6', '7', '8', '9', 'a', 'b', 'c', 'd', 'e', 'f']
}

/// Lower-case hex encoding, two digits per byte, high nibble first.
pub open spec fn spec_hex_of_bytes(data: Seq<u8>) -> Seq<char>
    decreases data.len(),
{
    if data.len() == 0 {
        Seq::empty()
    } else {
        seq![
            spec_hex_chars()[data.first() as int / 16],
            spec_hex_chars()[data.first() as int % 16],
        ] + spec_hex_of_bytes(data.drop_first())
    }
}

/// Hex encoding doubles the length and yields hex digits only.
pub proof fn lemma_hex_shape(data: Seq<u8>)
    ensures
        spec_hex_of_bytes(data).len() == 2 * data.len(),
        forall|i: int|
            0 <= i < spec_hex_of_bytes(data).len() ==> spec_hex_chars().contains(
                #[trigger] spec_hex_of_bytes(data)[i],
            ),
    decreases data.len(),
{
    if data.len() > 0 {
        lemma_hex_shape(data.drop_first());
        let h = spec_hex_of_bytes(data);
        let rest = spec_hex_of_bytes(data.drop_first());
        let hi = data.first() as int / 16;
        let lo = data.first() as int % 16;
        assert forall|i: int| 0 <= i < h.len() implies spec_hex_chars().contains(
            #[trigger] h[i],
        ) by {
            if i == 0 {
                assert(h[0] == spec_hex_chars()[hi]);
            } else if i == 1 {
                assert(h[1] == spec_hex_chars()[lo]);
            } else {
                assert(h[i] == rest[i - 2]);
            }
        }
    }
}

/// Hex-encodes a byte string in lower case, per [`spec_hex_of_bytes`].
fn to_hex(data: &Vec<u8>) -> (r: String)
    ensures
        r@ == spec_hex_of_bytes(data@),
{
    let digits = "0123456789abcdef";
    proof {
        reveal_strlit("0123456789abcdef");
        assert(digits@ =~= spec_hex_chars());
        assert(data@.skip(0) =~= data@);
    }
    let mut out = String::new();
    let n = data.len();
    let mut i: usize = 0;
    while i < n
        invariant
            n == data@.len(),
            0 <= i <= n,
            digits@ == spec_hex_chars(),
            digits@.len() == 16,
            spec_hex_of_bytes(data@) == out@ + spec_hex_of_bytes(data@.skip(i as int)),
        decreases n - i,
    {
        let b = data[i];
        let hi = (b / 16) as usize;
        let lo = (b % 16) as usize;
        out.append(digits.substring_char(hi, hi + 1));
        out.append(digits.substring_char(lo, lo + 1));
        proof {
            let suf = data@.skip(i as int);
            assert(suf.first() == data@[i as int]);
            assert(suf.drop_first() =~= data@.skip(i + 1));
            assert(digits@.subrange(hi as int, hi + 1) =~= seq![spec_hex_chars()[hi as int]]);
            assert(digits@.subrange(lo as int, lo + 1) =~= seq![spec_hex_chars()[lo as int]]);
            assert(spec_hex_of_bytes(data@) =~= out@ + spec_hex_of_bytes(data@.skip(i + 1)));
        }
        i = i + 1;
    }
    proof {
        assert(data@.skip(n as int) =~= Seq::<u8>::empty());
        assert(spec_hex_of_bytes(data@) =~= out@);
    }
    out
}

/// The byte string a transaction is fingerprinted over: its description,
/// canonical date, little-endian amount, and reference number.
pub open spec fn spec_fingerprint_input(t: TransactionView) -> Seq<u8> {
    vstd::utf8::encode_utf8(t.description) + vstd::utf8::encode_utf8(t.transaction_date)
        + vstd::bytes::spec_u32_to_le_bytes(t.amount as u32) + vstd::utf8::encode_utf8(t.refnum)
}

/// A transaction's fingerprint: the hex-encoded digest of its fingerprint
/// bytes. A function of the four fingerprinted fields and nothing else.
pub open spec fn spec_fingerprint(t: TransactionView) -> Seq<char> {
    spec_hex_of_bytes(spec_sha256(spec_fingerprint_input(t)))
}

/// Computes a transaction's fingerprint, per [`spec_fingerprint`]: a
/// fixed-length string of sixty-four lower-case hex digits.
pub fn hash_transaction_data(txn: &TransactionTransport) -> (r: String)
    ensures
        r@ == spec_fingerprint(txn@),
        r@.len() == 64,
        forall|i: int| 0 <= i < r@.len() ==> spec_hex_chars().contains(#[trigger] r@[i]),
{
    let mut msg: Vec<u8> = txn.description.as_str().as_bytes_vec();
    let mut date_bytes = txn.transaction_date.as_str().as_bytes_vec();
    msg.append(&mut date_bytes);
    #[verifier::truncate]
    let amount_wrapped: u32 = txn.amount as u32;
    let mut amount_bytes = vstd::bytes::u32_to_le_bytes(amount_wrapped);
    msg.append(&mut amount_bytes);
    let mut refnum_bytes = txn.refnum.as_str().as_bytes_vec();
    msg.append(&mut refnum_bytes);
    proof {
        assert(msg@ =~= spec_fingerprint_input(txn@));
    }
    let digest = sha256_digest(&msg);
    proof {
        lemma_hex_shape(digest@);
    }
    to_hex(&digest)
}

/// Fingerprinting is deterministic: two transactions that agree on the
/// four fingerprinted fields have the same fingerprint, whatever their
/// other fields hold and however often it is computed.
pub proof fn lemma_fingerprint_deterministic(a: TransactionView, b: TransactionView)
    requires
        a.description == b.description,
        a.transaction_date == b.transaction_date,
        a.amount == b.amount,
        a.refnum == b.refnum,
    ensures
        spec_fingerprint(a) == spec_fingerprint(b),
{
}

/// The set of fingerprints of a list of transactions.
pub open spec fn spec_fingerprint_set(txns: Seq<TransactionView>) -> Set<Seq<char>> {
    txns.map_values(|t: TransactionView| spec_fingerprint(t)).to_set()
}

/// Fingerprinting is order-independent: two lists holding the same
/// transactions, in whatever order and multiplicity, fingerprint to the
/// same set.
pub proof fn lemma_fingerprint_set_order_independent(
    a: Seq<TransactionView>,
    b: Seq<TransactionView>,
)
    requires
        a.to_multiset() == b.to_multiset(),
    ensures
        spec_fingerprint_set(a) == spec_fingerprint_set(b),
{
    broadcast use vstd::seq_lib::group_to_multiset_ensures;

    let fa = a.map_values(|t: TransactionView| spec_fingerprint(t));
    let fb = b.map_values(|t: TransactionView| spec_fingerprint(t));
    assert forall|x: Seq<char>| fa.to_set().contains(x) implies fb.to_set().contains(x) by {
        let i = choose|i: int| 0 <= i < fa.len() && fa[i] == x;
        assert(a.contains(a[i]));
        assert(b.to_multiset().count(a[i]) > 0);
        let j = choose|j: int| 0 <= j < b.len() && b[j] == a[i];
        assert(fb[j] == x);
        assert(fb.contains(x));
    }
    assert forall|x: Seq<char>| fb.to_set().contains(x) implies fa.to_set().contains(x) by {
        let i = choose|i: int| 0 <= i < fb.len() && fb[i] == x;
        assert(b.contains(b[i]));
        assert(a.to_multiset().count(b[i]) > 0);
        let j = choose|j: int| 0 <= j < a.len() && a[j] == b[i];
        assert(fa[j] == x);
        assert(fa.contains(x));
    }
    assert(fa.to_set() =~= fb.to_set());
}

} // verus!
