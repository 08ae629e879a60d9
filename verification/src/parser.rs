//! The OFX document parser: three interchangeable strategies that all yield
//! the same intermediate record shape.
//!
//! * the XML strategy scans an event stream (start tags, end tags, text)
//!   produced by an XML reader, carrying a "current open tag" cursor and an
//!   in-progress accumulator between the transaction markers;
//! * the line-oriented SGML strategy consumes trimmed, non-empty lines,
//!   reading `<TAG>value` fields between the transaction markers (legacy
//!   SGML omits closing tags);
//! * the single-line SGML strategy inserts a line break before every `<`
//!   and then delegates to the line-oriented strategy.
//!
//! `parse_ofx_with_fallback` tries them in that order and accepts the first
//! non-empty result; when every strategy comes back empty the file is
//! rejected with an error naming it.

use vstd::prelude::*;

use crate::amounts::{normalize_amount, spec_normalize_amount};
use crate::dates::{parse_ofx_date, spec_parse_ofx_date};
use crate::strutil::{
    find_char, spec_find, spec_starts_with, spec_std_lines, spec_trim, split_std_lines,
    str_eq, str_starts_with, trim_str,
};
use crate::transport::{TransactionTransport, TransactionView};
use crate::{spec_type_code, CREDIT_TYPE_CODE, DEBIT_TYPE_CODE};

verus! {

/// Mathematical value of a [`TempTranFromXml`]: the six raw fields as
/// character sequences.
pub struct RawRecordView {
    pub transaction_type: Seq<char>,
    pub date_posted: Seq<char>,
    pub transaction_amount: Seq<char>,
    pub refnum: Seq<char>,
    pub name: Seq<char>,
    pub memo: Seq<char>,
}

/// The record with every field empty.
pub open spec fn spec_empty_record() -> RawRecordView {
    RawRecordView {
        transaction_type: Seq::empty(),
        date_posted: Seq::empty(),
        transaction_amount: Seq::empty(),
        refnum: Seq::empty(),
        name: Seq::empty(),
        memo: Seq::empty(),
    }
}

/// The intermediate transaction record a parse strategy extracts: free-text
/// fields exactly as they stood in the document, absent fields left empty.
/// No validation happens at this stage.
#[derive(Debug)]
pub struct TempTranFromXml {
    pub transaction_type: String,
    pub date_posted: String,
    pub transaction_amount: String,
    pub refnum: String,
    pub name: String,
    pub memo: String,
}

impl View for TempTranFromXml {
    type V = RawRecordView;

    open spec fn view(&self) -> RawRecordView {
        RawRecordView {
            transaction_type: self.transaction_type@,
            date_posted: self.date_posted@,
            transaction_amount: self.transaction_amount@,
            refnum: self.refnum@,
            name: self.name@,
            memo: self.memo@,
        }
    }
}

impl DeepView for TempTranFromXml {
    type V = RawRecordView;

    open spec fn deep_view(&self) -> RawRecordView {
        self.view()
    }
}

impl TempTranFromXml {
    /// A record with every field empty.
    pub fn new() -> (r: Self)
        ensures
            r@ == spec_empty_record(),
    {
        Self {
            transaction_type: String::new(),
            date_posted: String::new(),
            transaction_amount: String::new(),
            refnum: String::new(),
            name: String::new(),
            memo: String::new(),
        }
    }

    /// Normalizes this record into the canonical transaction entity, per
    /// [`spec_to_transport`]: the memo becomes the description, the amount
    /// and posted date are normalized, and the type text is classified.
    pub fn to_transport(&self) -> (t: TransactionTransport)
        ensures
            t@ == spec_to_transport(self@),
    {
        let amount = normalize_amount(self.transaction_amount.as_str());
        let date = parse_ofx_date(self.date_posted.as_str());
        let code: i32 = if str_eq(self.transaction_type.as_str(), "CREDIT") || str_eq(
            self.transaction_type.as_str(),
            "DIRECTDEP",
        ) {
            CREDIT_TYPE_CODE
        } else {
            DEBIT_TYPE_CODE
        };
        TransactionTransport {
            statement_id: None,
            description: self.memo.clone(),
            amount,
            transaction_date: date,
            refnum: self.refnum.clone(),
            transaction_type_lookup_code: code,
        }
    }
}

/// What normalization makes of a raw record: the canonical transaction,
/// with the amount in minor units, the date canonical, and the type text
/// classified into a code. Amount sign and type code are independent.
pub open spec fn spec_to_transport(r: RawRecordView) -> TransactionView {
    TransactionView {
        statement_id: None,
        description: r.memo,
        amount: spec_normalize_amount(r.transaction_amount),
        transaction_date: spec_parse_ofx_date(r.date_posted),
        refnum: r.refnum,
        transaction_type_lookup_code: spec_type_code(r.transaction_type),
    }
}

/// A legacy SGML field line `<TAG>value`: the tag up to the first `>`, the
/// value up to the next `<` or the end of the line, trimmed. `None` when
/// the line carries no leading `<` or no `>` at all.
pub open spec fn spec_parse_sgml_line(line: Seq<char>) -> Option<(Seq<char>, Seq<char>)> {
    if line.len() == 0 || line[0] != '<' {
        None
    } else {
        match spec_find(line, '>', 0) {
            None => None,
            Some(te) => {
                let tag = line.subrange(1, te);
                let vend = match spec_find(line, '<', te + 1) {
                    Some(nt) => nt,
                    None => line.len() as int,
                };
                Some((tag, spec_trim(line.subrange(te + 1, vend))))
            },
        }
    }
}

/// Splits a legacy SGML field line into its tag and value, per
/// [`spec_parse_sgml_line`].
pub fn parse_sgml_line(line: &str) -> (r: Option<(String, String)>)
    ensures
        match r {
            Some(p) => spec_parse_sgml_line(line@) == Some((p.0@, p.1@)),
            None => spec_parse_sgml_line(line@) is None,
        },
{
    let n = line.unicode_len();
    if n == 0 || line.get_char(0) != '<' {
        return None;
    }
    let te = match find_char(line, '>', 0) {
        Some(i) => i,
        None => {
            return None;
        },
    };
    let vend = match find_char(line, '<', te + 1) {
        Some(i) => i,
        None => n,
    };
    let tag = line.substring_char(1, te).to_owned();
    let value = trim_str(line.substring_char(te + 1, vend)).to_owned();
    Some((tag, value))
}

/// A recognized field tag assigns the value to its field; `FITID` and
/// `REFNUM` both feed the reference field; anything else is ignored.
pub open spec fn spec_apply_sgml_field(
    rec: RawRecordView,
    tag: Seq<char>,
    value: Seq<char>,
) -> RawRecordView {
    if tag == "TRNTYPE"@ {
        RawRecordView { transaction_type: value, ..rec }
    } else if tag == "DTPOSTED"@ {
        RawRecordView { date_posted: value, ..rec }
    } else if tag == "TRNAMT"@ {
        RawRecordView { transaction_amount: value, ..rec }
    } else if tag == "FITID"@ || tag == "REFNUM"@ {
        RawRecordView { refnum: value, ..rec }
    } else if tag == "NAME"@ {
        RawRecordView { name: value, ..rec }
    } else if tag == "MEMO"@ {
        RawRecordView { memo: value, ..rec }
    } else {
        rec
    }
}

/// Applies one field line to the accumulator, per [`spec_apply_sgml_field`].
fn apply_sgml_field(rec: TempTranFromXml, tag: &str, value: String) -> (r: TempTranFromXml)
    ensures
        r@ == spec_apply_sgml_field(rec@, tag@, value@),
{
    let mut rec = rec;
    if str_eq(tag, "TRNTYPE") {
        rec.transaction_type = value;
    } else if str_eq(tag, "DTPOSTED") {
        rec.date_posted = value;
    } else if str_eq(tag, "TRNAMT") {
        rec.transaction_amount = value;
    } else if str_eq(tag, "FITID") || str_eq(tag, "REFNUM") {
        rec.refnum = value;
    } else if str_eq(tag, "NAME") {
        rec.name = value;
    } else if str_eq(tag, "MEMO") {
        rec.memo = value;
    }
    rec
}

/// The line-oriented scan, from line `i` on, with the current state: inside
/// a transaction or not, the accumulator, and the records emitted so far.
/// A `<STMTTRN>` line opens a fresh accumulator; a `</STMTTRN>` line emits
/// it unconditionally; between them, field lines fill it; everything else
/// is ignored.
pub open spec fn spec_sgml_scan(
    lines: Seq<Seq<char>>,
    i: int,
    in_txn: bool,
    cur: RawRecordView,
    out: Seq<RawRecordView>,
) -> Seq<RawRecordView>
    decreases lines.len() - i,
{
    if i < 0 || i >= lines.len() {
        out
    } else {
        let line = spec_trim(lines[i]);
        if line.len() == 0 {
            spec_sgml_scan(lines, i + 1, in_txn, cur, out)
        } else if spec_starts_with(line, "<STMTTRN>"@) {
            spec_sgml_scan(lines, i + 1, true, spec_empty_record(), out)
        } else if spec_starts_with(line, "</STMTTRN>"@) {
            spec_sgml_scan(lines, i + 1, false, spec_empty_record(), out.push(cur))
        } else if in_txn && line[0] == '<' {
            match spec_parse_sgml_line(line) {
                Some(tv) => spec_sgml_scan(
                    lines,
                    i + 1,
                    in_txn,
                    spec_apply_sgml_field(cur, tv.0, tv.1),
                    out,
                ),
                None => spec_sgml_scan(lines, i + 1, in_txn, cur, out),
            }
        } else {
            spec_sgml_scan(lines, i + 1, in_txn, cur, out)
        }
    }
}

/// What the line-oriented SGML strategy extracts from a document.
pub open spec fn spec_parse_as_sgml(content: Seq<char>) -> Seq<RawRecordView> {
    spec_sgml_scan(spec_std_lines(content), 0, false, spec_empty_record(), Seq::empty())
}

/// The line-oriented SGML strategy, per [`spec_parse_as_sgml`]: consumes
/// the document line by line and collects one record per `STMTTRN` block.
pub fn parse_as_sgml(file_content: &str) -> (r: Vec<TempTranFromXml>)
    ensures
        r.deep_view() == spec_parse_as_sgml(file_content@),
{
    let lines = split_std_lines(file_content);
    let ghost linesd = lines.deep_view();
    let mut out: Vec<TempTranFromXml> = Vec::new();
    let mut cur = TempTranFromXml::new();
    let mut in_txn = false;
    let mut i: usize = 0;
    let nlines = lines.len();
    proof {
        assert(out.deep_view() =~= Seq::<RawRecordView>::empty());
    }
    while i < nlines
        invariant
            nlines == lines@.len(),
            linesd == lines.deep_view(),
            0 <= i <= nlines,
            spec_parse_as_sgml(file_content@) == spec_sgml_scan(
                linesd,
                i as int,
                in_txn,
                cur@,
                out.deep_view(),
            ),
        decreases nlines - i,
    {
        let ghost prev_out = out.deep_view();
        proof {
            assert(linesd[i as int] == lines@[i as int]@);
        }
        let line = trim_str(lines[i].as_str());
        if line.unicode_len() == 0 {
            // blank line
        } else if str_starts_with(line, "<STMTTRN>") {
            in_txn = true;
            cur = TempTranFromXml::new();
        } else if str_starts_with(line, "</STMTTRN>") {
            let ghost curv = cur@;
            in_txn = false;
            out.push(cur);
            cur = TempTranFromXml::new();
            proof {
                assert(out.deep_view() =~= prev_out.push(curv));
            }
        } else if in_txn && line.get_char(0) == '<' {
            match parse_sgml_line(line) {
                Some(tv) => {
                    cur = apply_sgml_field(cur, tv.0.as_str(), tv.1);
                },
                None => {},
            }
        } else {
            // a header or continuation line
        }
        i = i + 1;
    }
    out
}

/// The single-line preprocessing: a line break inserted before every `<`.
pub open spec fn spec_newline_before_lt(s: Seq<char>) -> Seq<char>
    decreases s.len(),
{
    if s.len() == 0 {
        s
    } else {
        (if s[0] == '<' {
            seq!['\n', '<']
        } else {
            seq![s[0]]
        }) + spec_newline_before_lt(s.drop_first())
    }
}

/// Inserts a line break before every `<`, per [`spec_newline_before_lt`].
fn newline_before_lt(s: &str) -> (r: String)
    ensures
        r@ == spec_newline_before_lt(s@),
{
    let n = s.unicode_len();
    let mut out = String::new();
    let mut i: usize = 0;
    proof {
        assert(s@.skip(0) =~= s@);
        assert(out@ + spec_newline_before_lt(s@) =~= spec_newline_before_lt(s@));
    }
    while i < n
        invariant
            n == s@.len(),
            0 <= i <= n,
            spec_newline_before_lt(s@) == out@ + spec_newline_before_lt(s@.skip(i as int)),
        decreases n - i,
    {
        let c = s.get_char(i);
        if c == '<' {
            out.append("\n");
        }
        out.append(s.substring_char(i, i + 1));
        proof {
            reveal_strlit("\n");
            let suf = s@.skip(i as int);
            assert(suf[0] == s@[i as int]);
            assert(suf.drop_first() =~= s@.skip(i + 1));
            assert(s@.subrange(i as int, i + 1) =~= seq![s@[i as int]]);
            if c == '<' {
                assert(("\n"@) =~= seq!['\n']);
            }
            assert(spec_newline_before_lt(s@) =~= out@ + spec_newline_before_lt(s@.skip(i + 1)));
        }
        i = i + 1;
    }
    proof {
        assert(s@.skip(n as int) =~= Seq::<char>::empty());
        assert(spec_newline_before_lt(s@) =~= out@);
    }
    out
}

/// The single-line SGML strategy: the content with a line break inserted
/// before every `<`, parsed by the line-oriented strategy.
pub fn parse_as_sgml_on_one_line(file_content: &str) -> (r: Vec<TempTranFromXml>)
    ensures
        r.deep_view() == spec_parse_as_sgml(spec_newline_before_lt(file_content@)),
{
    let replaced = newline_before_lt(file_content);
    parse_as_sgml(replaced.as_str())
}

/// Event kind: a start tag.
pub const XML_EVENT_OPEN: u8 = 1;

/// Event kind: an end tag.
pub const XML_EVENT_CLOSE: u8 = 2;

/// Event kind: text content.
pub const XML_EVENT_TEXT: u8 = 3;

/// The event stream an XML reader yields for a document: each event is a
/// kind ([`XML_EVENT_OPEN`], [`XML_EVENT_CLOSE`] or [`XML_EVENT_TEXT`])
/// with the tag name or text, in document order; `None` for unparsable
/// markup. The stream depends on the document alone.
pub uninterp spec fn xml_events_of(content: Seq<char>) -> Option<Seq<(u8, Seq<char>)>>;

/// Relies on quick_xml's `Reader`: reading events from a string yields its
/// start tags, end tags and text nodes (text trimmed of surrounding
/// whitespace) in document order, a pure function of the document; an
/// ill-formed document gives an error.
#[verifier::external_body]
fn read_xml_events(content: &str) -> (r: Option<Vec<(u8, String)>>)
    ensures
        match r {
            Some(v) => xml_events_of(content@) == Some(v.deep_view()),
            None => xml_events_of(content@) is None,
        },
{
    let mut reader = quick_xml::reader::Reader::from_str(content);
    reader.config_mut().trim_text(true);
    let mut out: Vec<(u8, String)> = Vec::new();
    loop {
        match reader.read_event() {
            Err(_) => return None,
            Ok(quick_xml::events::Event::Eof) => return Some(out),
            Ok(quick_xml::events::Event::Start(e)) => out.push((1, e.name().0.to_string())),
            Ok(quick_xml::events::Event::End(e)) => out.push((2, e.name().0.to_string())),
            Ok(quick_xml::events::Event::Text(e)) => out.push((3, e.as_ref().to_string())),
            Ok(_) => (),
        }
    }
}

/// The field tags the XML scan takes note of.
pub open spec fn spec_xml_field_tag(t: Seq<char>) -> bool {
    t == "TRNTYPE"@ || t == "DTPOSTED"@ || t == "TRNAMT"@ || t == "REFNUM"@ || t == "NAME"@ || t
        == "MEMO"@ || t == "FITID"@
}

/// Text content lands in the field the cursor names. There is no `FITID`
/// arm: in the XML strategy only `REFNUM` feeds the reference field, a
/// `FITID` cursor swallows its text.
pub open spec fn spec_apply_xml_text(
    rec: RawRecordView,
    cur_tag: Seq<char>,
    text: Seq<char>,
) -> RawRecordView {
    if cur_tag == "TRNTYPE"@ {
        RawRecordView { transaction_type: text, ..rec }
    } else if cur_tag == "DTPOSTED"@ {
        RawRecordView { date_posted: text, ..rec }
    } else if cur_tag == "TRNAMT"@ {
        RawRecordView { transaction_amount: text, ..rec }
    } else if cur_tag == "REFNUM"@ {
        RawRecordView { refnum: text, ..rec }
    } else if cur_tag == "NAME"@ {
        RawRecordView { name: text, ..rec }
    } else if cur_tag == "MEMO"@ {
        RawRecordView { memo: text, ..rec }
    } else {
        rec
    }
}

/// Applies one text event to the accumulator, per [`spec_apply_xml_text`].
fn apply_xml_text(rec: TempTranFromXml, cur_tag: &str, text: String) -> (r: TempTranFromXml)
    ensures
        r@ == spec_apply_xml_text(rec@, cur_tag@, text@),
{
    let mut rec = rec;
    if str_eq(cur_tag, "TRNTYPE") {
        rec.transaction_type = text;
    } else if str_eq(cur_tag, "DTPOSTED") {
        rec.date_posted = text;
    } else if str_eq(cur_tag, "TRNAMT") {
        rec.transaction_amount = text;
    } else if str_eq(cur_tag, "REFNUM") {
        rec.refnum = text;
    } else if str_eq(cur_tag, "NAME") {
        rec.name = text;
    } else if str_eq(cur_tag, "MEMO") {
        rec.memo = text;
    }
    rec
}

/// The event-driven scan, from event `i` on, with the current state: the
/// "current open tag" cursor, the accumulator that exists between the
/// transaction markers, and the records emitted so far. An end marker
/// emits the accumulator and immediately opens a fresh one; a start marker
/// opens one only when none is active; a field start tag moves the cursor;
/// non-empty text content fills the cursor's field of the active
/// accumulator (empty text, whitespace the reader trimmed away, is
/// ignored). Everything else is ignored.
pub open spec fn spec_xml_scan(
    events: Seq<(u8, Seq<char>)>,
    i: int,
    cur_tag: Seq<char>,
    holder: Option<RawRecordView>,
    out: Seq<RawRecordView>,
) -> Seq<RawRecordView>
    decreases events.len() - i,
{
    if i < 0 || i >= events.len() {
        out
    } else {
        let k = events[i].0;
        let t = events[i].1;
        if k == XML_EVENT_CLOSE && t == "STMTTRN"@ {
            if holder is Some {
                spec_xml_scan(events, i + 1, cur_tag, Some(spec_empty_record()), out.push(
                    holder->0,
                ))
            } else {
                spec_xml_scan(events, i + 1, cur_tag, holder, out)
            }
        } else if k == XML_EVENT_OPEN && t == "STMTTRN"@ {
            if holder is None {
                spec_xml_scan(events, i + 1, cur_tag, Some(spec_empty_record()), out)
            } else {
                spec_xml_scan(events, i + 1, cur_tag, holder, out)
            }
        } else if k == XML_EVENT_OPEN && spec_xml_field_tag(t) {
            spec_xml_scan(events, i + 1, t, holder, out)
        } else if k == XML_EVENT_TEXT && t.len() > 0 && holder is Some {
            spec_xml_scan(events, i + 1, cur_tag, Some(spec_apply_xml_text(holder->0, cur_tag, t)), out)
        } else {
            spec_xml_scan(events, i + 1, cur_tag, holder, out)
        }
    }
}

/// What the XML strategy extracts from a document: the scan of its event
/// stream, or `None` for unparsable markup.
pub open spec fn spec_parse_as_xml(content: Seq<char>) -> Option<Seq<RawRecordView>> {
    match xml_events_of(content) {
        Some(events) => Some(spec_xml_scan(events, 0, Seq::empty(), None, Seq::empty())),
        None => None,
    }
}

/// Scans an XML event stream for `STMTTRN` records, per [`spec_xml_scan`].
fn scan_xml_events(events: &Vec<(u8, String)>) -> (r: Vec<TempTranFromXml>)
    ensures
        r.deep_view() == spec_xml_scan(
            events.deep_view(),
            0,
            Seq::empty(),
            None,
            Seq::empty(),
        ),
{
    let ghost eventsd = events.deep_view();
    let mut out: Vec<TempTranFromXml> = Vec::new();
    let mut holder: Option<TempTranFromXml> = None;
    let mut cur_tag = String::new();
    let mut i: usize = 0;
    let nevents = events.len();
    proof {
        assert(out.deep_view() =~= Seq::<RawRecordView>::empty());
    }
    while i < nevents
        invariant
            nevents == events@.len(),
            eventsd == events.deep_view(),
            0 <= i <= nevents,
            spec_xml_scan(eventsd, 0, Seq::empty(), None, Seq::empty()) == spec_xml_scan(
                eventsd,
                i as int,
                cur_tag@,
                match holder {
                    Some(h) => Some(h@),
                    None => None,
                },
                out.deep_view(),
            ),
        decreases nevents - i,
    {
        let ghost prev_out = out.deep_view();
        proof {
            assert(eventsd[i as int] == (events@[i as int].0, events@[i as int].1@));
        }
        let kind = events[i].0;
        let name = &events[i].1;
        if kind == XML_EVENT_CLOSE && str_eq(name.as_str(), "STMTTRN") {
            if holder.is_some() {
                let ghost hv = holder->0@;
                let h = holder.unwrap();
                out.push(h);
                holder = Some(TempTranFromXml::new());
                proof {
                    assert(out.deep_view() =~= prev_out.push(hv));
                }
            }
        } else if kind == XML_EVENT_OPEN && str_eq(name.as_str(), "STMTTRN") {
            if holder.is_none() {
                holder = Some(TempTranFromXml::new());
            }
        } else if kind == XML_EVENT_OPEN && is_xml_field_tag(name.as_str()) {
            cur_tag = name.clone();
        } else if kind == XML_EVENT_TEXT && name.as_str().unicode_len() > 0 && holder.is_some() {
            let h = holder.unwrap();
            let h2 = apply_xml_text(h, cur_tag.as_str(), name.clone());
            holder = Some(h2);
        } else {
            // other markup is ignored
        }
        i = i + 1;
    }
    out
}

/// Whether `t` is one of the field tags, per [`spec_xml_field_tag`].
fn is_xml_field_tag(t: &str) -> (r: bool)
    ensures
        r == spec_xml_field_tag(t@),
{
    str_eq(t, "TRNTYPE") || str_eq(t, "DTPOSTED") || str_eq(t, "TRNAMT") || str_eq(t, "REFNUM")
        || str_eq(t, "NAME") || str_eq(t, "MEMO") || str_eq(t, "FITID")
}

/// The XML strategy, per [`spec_parse_as_xml`]: event-driven scan of the
/// document, `None` when the markup cannot be read.
pub fn parse_as_xml(file_content: &str) -> (r: Option<Vec<TempTranFromXml>>)
    ensures
        match r {
            Some(v) => spec_parse_as_xml(file_content@) == Some(v.deep_view()),
            None => spec_parse_as_xml(file_content@) is None,
        },
{
    match read_xml_events(file_content) {
        Some(events) => Some(scan_xml_events(&events)),
        None => None,
    }
}

/// The error of a file no strategy could read: it names the source so the
/// bad file can be located.
#[derive(Debug, Clone)]
pub struct ParseError {
    pub file_name: String,
}

/// What the fallback dispatcher extracts: the first strategy, in the fixed
/// order XML, line-oriented SGML, single-line SGML, whose result is
/// non-empty; `None` when all three come back empty or fail.
pub open spec fn spec_parse_with_fallback(content: Seq<char>) -> Option<Seq<RawRecordView>> {
    let xml = spec_parse_as_xml(content);
    if xml is Some && xml->0.len() > 0 {
        xml
    } else {
        let sgml = spec_parse_as_sgml(content);
        if sgml.len() > 0 {
            Some(sgml)
        } else {
            let one_line = spec_parse_as_sgml(spec_newline_before_lt(content));
            if one_line.len() > 0 {
                Some(one_line)
            } else {
                None
            }
        }
    }
}

/// The fallback dispatcher, per [`spec_parse_with_fallback`]: tries the
/// three strategies in order and accepts the first non-empty result; a
/// strategy that parses but finds no transaction falls through. When all
/// three fail the error names the failing source.
pub fn parse_ofx_with_fallback(file_content: &str, file_name: &str) -> (r: Result<
    Vec<TempTranFromXml>,
    ParseError,
>)
    ensures
        match r {
            Ok(v) => spec_parse_with_fallback(file_content@) == Some(v.deep_view()) && v@.len()
                > 0,
            Err(e) => spec_parse_with_fallback(file_content@) is None && e.file_name@
                == file_name@,
        },
{
    match parse_as_xml(file_content) {
        Some(txns) => {
            if txns.len() > 0 {
                return Ok(txns);
            }
        },
        None => {},
    }
    let txns = parse_as_sgml(file_content);
    if txns.len() > 0 {
        return Ok(txns);
    }
    let txns = parse_as_sgml_on_one_line(file_content);
    if txns.len() > 0 {
        return Ok(txns);
    }
    Err(ParseError { file_name: file_name.to_owned() })
}

} // verus!
