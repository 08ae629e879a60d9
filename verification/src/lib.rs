//! Ingestion of OFX bank and credit-card statements: a fallback-driven
//! parser for the XML, line-oriented SGML, and single-line SGML encodings,
//! normalization of dates and amounts into canonical forms, content-addressed
//! transaction fingerprints, and a ledger of fingerprints that makes
//! re-ingestion of the same statement idempotent.

pub mod amounts;
pub mod api;
pub mod dates;
pub mod hashing;
pub mod ingestion;
pub mod ledger;
pub mod parser;
pub mod strutil;
pub mod transport;

use vstd::prelude::*;

verus! {

/// Classification code for debit transactions.
pub const DEBIT_TYPE_CODE: i32 = 10;

/// Classification code for credit transactions.
pub const CREDIT_TYPE_CODE: i32 = 20;

/// Maps an OFX transaction-type text to the classification code:
/// `CREDIT` and `DIRECTDEP` are credits, everything else is a debit.
pub open spec fn spec_type_code(t: Seq<char>) -> i32 {
    if t == "CREDIT"@ || t == "DIRECTDEP"@ {
        CREDIT_TYPE_CODE
    } else {
        DEBIT_TYPE_CODE
    }
}

} // verus!
