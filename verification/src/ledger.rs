//! The hash ledger: the set of previously seen transaction fingerprints.
//! It is persisted as newline-delimited text, loaded whole at startup and
//! rendered whole for rewriting; in memory it is an insertion-ordered list
//! without duplicates, so its mathematical value is the sequence of its
//! entries and membership is plain sequence membership.

use vstd::prelude::*;

use crate::strutil::{spec_std_lines, split_std_lines, str_eq};

verus! {

/// Keep-first deduplication: the subsequence of first occurrences.
pub open spec fn spec_dedup(lines: Seq<Seq<char>>) -> Seq<Seq<char>>
    decreases lines.len(),
{
    if lines.len() == 0 {
        Seq::empty()
    } else {
        let rest = spec_dedup(lines.drop_last());
        if rest.contains(lines.last()) {
            rest
        } else {
            rest.push(lines.last())
        }
    }
}

/// The entries joined by single newlines, no trailing newline.
pub open spec fn spec_join_nl(lines: Seq<Seq<char>>) -> Seq<char>
    decreases lines.len(),
{
    if lines.len() == 0 {
        Seq::empty()
    } else if lines.len() == 1 {
        lines[0]
    } else {
        lines[0] + seq!['\n'] + spec_join_nl(lines.drop_first())
    }
}

proof fn lemma_join_nl_push(lines: Seq<Seq<char>>, x: Seq<char>)
    requires
        lines.len() >= 1,
    ensures
        spec_join_nl(lines.push(x)) == spec_join_nl(lines) + seq!['\n'] + x,
    decreases lines.len(),
{
    if lines.len() == 1 {
        assert(lines.push(x)[0] == lines[0]);
        assert(lines.push(x).drop_first() =~= seq![x]);
        assert(spec_join_nl(seq![x]) == x);
    } else {
        assert(lines.push(x).drop_first() =~= lines.drop_first().push(x));
        lemma_join_nl_push(lines.drop_first(), x);
        assert(lines.push(x)[0] == lines[0]);
    }
}

/// Whether one of the strings in `v` reads `x`.
pub fn string_vec_contains(v: &Vec<String>, x: &str) -> (r: bool)
    ensures
        r == v.deep_view().contains(x@),
{
    let n = v.len();
    let mut i: usize = 0;
    while i < n
        invariant
            n == v@.len(),
            0 <= i <= n,
            forall|k: int| 0 <= k < i ==> v.deep_view()[k] != x@,
        decreases n - i,
    {
        if str_eq(v[i].as_str(), x) {
            proof {
                assert(v.deep_view()[i as int] == v@[i as int]@);
            }
            return true;
        }
        proof {
            assert(v.deep_view()[i as int] == v@[i as int]@);
        }
        i = i + 1;
    }
    false
}

/// The set of previously seen fingerprints, in insertion order.
pub struct HashLedger {
    entries: Vec<String>,
}

impl View for HashLedger {
    type V = Seq<Seq<char>>;

    closed spec fn view(&self) -> Seq<Seq<char>> {
        self.entries.deep_view()
    }
}

impl HashLedger {
    /// An empty ledger.
    pub fn new() -> (r: HashLedger)
        ensures
            r@ == Seq::<Seq<char>>::empty(),
    {
        let r = HashLedger { entries: Vec::new() };
        proof {
            assert(r@ =~= Seq::<Seq<char>>::empty());
        }
        r
    }

    /// Whether `h` has been seen.
    pub fn contains_hash(&self, h: &str) -> (r: bool)
        ensures
            r == self@.contains(h@),
    {
        string_vec_contains(&self.entries, h)
    }

    /// Records `h`: appended when new, nothing otherwise.
    pub fn add_hash(&mut self, h: String)
        ensures
            final(self)@ == if old(self)@.contains(h@) {
                old(self)@
            } else {
                old(self)@.push(h@)
            },
    {
        let ghost prev = self@;
        if !string_vec_contains(&self.entries, h.as_str()) {
            let ghost hv = h@;
            self.entries.push(h);
            proof {
                assert(self.entries.deep_view() =~= prev.push(hv));
            }
        }
    }

    /// Records every string of `hs` in order.
    pub fn add_multiple_hashes(&mut self, hs: &Vec<String>)
        ensures
            final(self)@ == spec_add_all(old(self)@, hs.deep_view()),
    {
        let n = hs.len();
        let mut i: usize = 0;
        while i < n
            invariant
                n == hs@.len(),
                0 <= i <= n,
                self@ == spec_add_all(old(self)@, hs.deep_view().take(i as int)),
            decreases n - i,
        {
            proof {
                assert(hs.deep_view()[i as int] == hs@[i as int]@);
                assert(hs.deep_view().take(i + 1).drop_last() =~= hs.deep_view().take(i as int));
                assert(hs.deep_view().take(i + 1).last() == hs.deep_view()[i as int]);
            }
            self.add_hash(hs[i].clone());
            i = i + 1;
        }
        proof {
            assert(hs.deep_view().take(n as int) =~= hs.deep_view());
        }
    }

    /// Loads a ledger from newline-delimited text: one entry per line,
    /// first occurrences kept.
    pub fn from_text(text: &str) -> (r: HashLedger)
        ensures
            r@ == spec_dedup(spec_std_lines(text@)),
    {
        let lines = split_std_lines(text);
        let ghost linesd = lines.deep_view();
        let mut led = HashLedger::new();
        let n = lines.len();
        let mut i: usize = 0;
        while i < n
            invariant
                n == lines@.len(),
                linesd == lines.deep_view(),
                0 <= i <= n,
                led@ == spec_dedup(linesd.take(i as int)),
            decreases n - i,
        {
            proof {
                assert(linesd[i as int] == lines@[i as int]@);
                assert(linesd.take(i + 1).drop_last() =~= linesd.take(i as int));
                assert(linesd.take(i + 1).last() == linesd[i as int]);
            }
            led.add_hash(lines[i].clone());
            i = i + 1;
        }
        proof {
            assert(linesd.take(n as int) =~= linesd);
        }
        led
    }

    /// Renders the ledger as newline-delimited text, one entry per line,
    /// no trailing newline.
    pub fn to_text(&self) -> (r: String)
        ensures
            r@ == spec_join_nl(self@),
    {
        let mut out = String::new();
        let n = self.entries.len();
        let mut i: usize = 0;
        while i < n
            invariant
                n == self.entries@.len(),
                self@ == self.entries.deep_view(),
                0 <= i <= n,
                out@ == spec_join_nl(self@.take(i as int)),
            decreases n - i,
        {
            proof {
                assert(self@[i as int] == self.entries@[i as int]@);
                reveal_strlit("\n");
                assert(("\n"@) =~= seq!['\n']);
                if i > 0 {
                    lemma_join_nl_push(self@.take(i as int), self@[i as int]);
                }
                assert(self@.take(i + 1) =~= self@.take(i as int).push(self@[i as int]));
                if i == 0 {
                    assert(self@.take(1) =~= seq![self@[0]]);
                    assert(spec_join_nl(seq![self@[0]]) == self@[0]);
                }
            }
            if i > 0 {
                out.append("\n");
            }
            out.append(self.entries[i].as_str());
            i = i + 1;
        }
        proof {
            assert(self@.take(n as int) =~= self@);
        }
        out
    }
}

/// Every string of `hs`, in order, added to `led` with first occurrences
/// kept.
pub open spec fn spec_add_all(led: Seq<Seq<char>>, hs: Seq<Seq<char>>) -> Seq<Seq<char>>
    decreases hs.len(),
{
    if hs.len() == 0 {
        led
    } else {
        let prev = spec_add_all(led, hs.drop_last());
        if prev.contains(hs.last()) {
            prev
        } else {
            prev.push(hs.last())
        }
    }
}

} // verus!
