use moneyd::parser::{
    parse_as_sgml, parse_as_sgml_on_one_line, parse_as_xml, parse_ofx_with_fallback,
    parse_sgml_line, TempTranFromXml,
};

const V1_SMGL_DATA: &str = r#"OFXHEADER:100
DATA:OFXSGML
VERSION:102
SECURITY:NONE
ENCODING:USASCII
CHARSET:1252
COMPRESSION:NONE
OLDFILEUID:NONE
NEWFILEUID:NONE

<OFX>
<SIGNONMSGSRSV1>
<SONRS>
<STATUS>
<CODE>0
<SEVERITY>INFO
</STATUS>
<DTSERVER>20251213120000
<LANGUAGE>ENG
</SONRS>
</SIGNONMSGSRSV1>
<BANKMSGSRSV1>
<STMTTRNRS>
<TRNUID>1 
<STATUS>
<CODE>0
<SEVERITY>INFO
</STATUS>
<STMTRS>
<CURDEF>USD
<BANKACCTFROM>
<BANKID>0
<ACCTID>0
<ACCTTYPE>FAKE
</BANKACCTFROM>
<BANKTRANLIST>
<DTSTART>20240613120000 
<DTEND>20251213120000 
<STMTTRN>
<TRNTYPE>DEBIT
<DTPOSTED>20251212120000
<TRNAMT>-999.99
<FITID>1
<NAME>Payment Place
<MEMO>Preauthorized Debit
</STMTTRN>
<STMTTRN>
<TRNTYPE>DEBIT
<DTPOSTED>20251212120000
<TRNAMT>-1.00
<FITID>2
<NAME>Payment Place
<MEMO>Preauthorized Debit
</STMTTRN>"#;

const V2_XML_DATA: &str = r#"<?xml version="1.0" standalone="no"?><?OFX OFXHEADER="200" VERSION="202" SECURITY="NONE" OLDFILEUID="NONE" NEWFILEUID="NONE"?>
<OFX>
    <SIGNONMSGSRSV1>
        <SONRS>
            <STATUS>
                <CODE>0</CODE>
                <SEVERITY>INFO</SEVERITY>
                <MESSAGE>Login Successful!</MESSAGE>
            </STATUS>
            <DTSERVER>20251124000000.000[-7:MST]</DTSERVER>
            <LANGUAGE>ENG</LANGUAGE>
            <FI>
                <ORG>FAKE</ORG>
                <FID>1</FID>
            </FI>
            <INTU.BID>1</INTU.BID>
        </SONRS>
    </SIGNONMSGSRSV1>
    <CREDITCARDMSGSRSV1>
        <CCSTMTTRNRS>
            <TRNUID>0</TRNUID>
            <STATUS>
                <CODE>0</CODE>
                <SEVERITY>INFO</SEVERITY>
            </STATUS>
            <CCSTMTRS>
                <CURDEF>USD</CURDEF>
                <CCACCTFROM>
                    <ACCTID>0</ACCTID>
                </CCACCTFROM>
                <BANKTRANLIST>
                    <DTSTART>20251023000000.000[-7:MST]</DTSTART>
                    <DTEND>20251121000000.000[-7:MST]</DTEND>
                    <STMTTRN>
                        <TRNTYPE>DEBIT</TRNTYPE>
                        <DTPOSTED>20251120000000.000[-7:MST]</DTPOSTED>
                        <TRNAMT>-10.01</TRNAMT>
                        <FITID>1</FITID>
                        <REFNUM>1</REFNUM>
                        <NAME>Transaction 1 Name</NAME>
                        <MEMO>Transaction 1 Memo</MEMO>
                    </STMTTRN>
                    <STMTTRN>
                        <TRNTYPE>DEBIT</TRNTYPE>
                        <DTPOSTED>20251119000000.000[-7:MST]</DTPOSTED>
                        <TRNAMT>-5.01</TRNAMT>
                        <FITID>2</FITID>
                        <REFNUM>2</REFNUM>
                        <NAME>Transaction 2 Name</NAME>
                        <MEMO>Transaction 2 Memo</MEMO>
                    </STMTTRN>
                </BANKTRANLIST>
            </CCSTMTRS>
        </CCSTMTTRNRS>
    </CREDITCARDMSGSRSV1>
</OFX>"#;

const ONE_LINE_TEST_DATA: &str = r#"OFXHEADER:100
DATA:OFXSGML
VERSION:102
SECURITY:NONE
ENCODING:USASCII
CHARSET:1252
COMPRESSION:NONE
OLDFILEUID:NONE
NEWFILEUID:NONE

<OFX><SIGNONMSGSRSV1><SONRS><STATUS><CODE>0<SEVERITY>INFO</STATUS><DTSERVER>20251215120000[0:GMT]<LANGUAGE>ENG<FI><ORG>Dummy<FID>000</FI></SONRS></SIGNONMSGSRSV1><CREDITCARDMSGSRSV1><CCSTMTTRNRS><TRNUID>0<STATUS><CODE>0<SEVERITY>INFO</STATUS><CCSTMTRS><CURDEF>USD<CCACCTFROM><ACCTID>00-test</CCACCTFROM><BANKTRANLIST><DTSTART>20251101120000[0:GMT]<DTEND>20251130120000[0:GMT]<STMTTRN><TRNTYPE>DEBIT<DTPOSTED>20251129120000[0:GMT]<TRNAMT>-0.92<FITID>test-123<NAME>Test Transaction</STMTTRN></BANKTRANLIST><LEDGERBAL><BALAMT>-1234.56<DTASOF>20251130120000[0:GMT]</LEDGERBAL><AVAILBAL><BALAMT>9999.99DTASOF>20251130120000[0:GMT]</AVAILBAL></CCSTMTRS></CCSTMTTRNRS></CREDITCARDMSGSRSV1></OFX>"#;

#[test]
fn test_parse_smgl_as_smgl() {
    let unwrapped = parse_as_sgml(V1_SMGL_DATA);
    assert_eq!(unwrapped.len(), 2);
    let first_res = &unwrapped
        .get(0)
        .expect("First value is none. This is wrong.");
    let second_res = &unwrapped
        .get(1)
        .expect("Second value is none. This is wrong.");
    assert_eq!(first_res.memo, r#"Preauthorized Debit"#);
    assert_eq!(first_res.transaction_amount, r#"-999.99"#);
    assert_eq!(first_res.refnum, r#"1"#);
    assert_eq!(second_res.memo, r#"Preauthorized Debit"#);
    assert_eq!(second_res.transaction_amount, r#"-1.00"#);
    assert_eq!(second_res.refnum, r#"2"#);
}

#[test]
fn test_parse_one_line_sgml() {
    let unwrapped = parse_as_sgml_on_one_line(ONE_LINE_TEST_DATA);
    let first_res = &unwrapped
        .get(0)
        .expect("First value is none. This is wrong.");
    assert_eq!(first_res.name, r#"Test Transaction"#);
    assert_eq!(first_res.transaction_amount, r#"-0.92"#);
    assert_eq!(first_res.refnum, r#"test-123"#);
}

#[test]
fn test_parse_smgl_as_xml() {
    let res = parse_as_xml(V1_SMGL_DATA);
    let unwrapped = match res {
        Some(s) => s,
        None => Vec::new(),
    };

    assert_eq!(unwrapped.len(), 0);
}

#[test]
fn test_parse_xml_as_xml() {
    let res = parse_as_xml(V2_XML_DATA);
    let unwrapped = match res {
        Some(r) => r,
        None => {
            println!("unparsable markup");
            Vec::new()
        }
    };
    assert_eq!(unwrapped.len(), 2);
    let first_res = &unwrapped
        .get(0)
        .expect("First value is none. This is wrong.");
    let second_res = &unwrapped
        .get(1)
        .expect("Second value is none. This is wrong.");

    assert_eq!(first_res.memo, r#"Transaction 1 Memo"#);
    assert_eq!(first_res.transaction_amount, r#"-10.01"#);
    assert_eq!(first_res.refnum, r#"1"#);
    assert_eq!(second_res.memo, r#"Transaction 2 Memo"#);
    assert_eq!(second_res.transaction_amount, r#"-5.01"#);
    assert_eq!(second_res.refnum, r#"2"#);
}

#[test]
fn test_parse_ofx_with_smgl() {
    let result = parse_ofx_with_fallback(V1_SMGL_DATA, "dummy_file").unwrap();

    assert_eq!(result.len(), 2);
    let first_res = &result.get(0).expect("First value is none. This is wrong.");
    let second_res = &result.get(1).expect("Second value is none. This is wrong.");
    assert_eq!(first_res.memo, r#"Preauthorized Debit"#);
    assert_eq!(first_res.transaction_amount, r#"-999.99"#);
    assert_eq!(first_res.refnum, r#"1"#);
    assert_eq!(second_res.memo, r#"Preauthorized Debit"#);
    assert_eq!(second_res.transaction_amount, r#"-1.00"#);
    assert_eq!(second_res.refnum, r#"2"#);
}

#[test]
fn test_parse_ofx_with_xml() {
    let result = parse_ofx_with_fallback(V2_XML_DATA, "dummy_file").unwrap();

    assert_eq!(result.len(), 2);
    let first_res = &result.get(0).expect("First value is none. This is wrong.");
    let second_res = &result.get(1).expect("Second value is none. This is wrong.");

    assert_eq!(first_res.memo, r#"Transaction 1 Memo"#);
    assert_eq!(first_res.transaction_amount, r#"-10.01"#);
    assert_eq!(first_res.refnum, r#"1"#);
    assert_eq!(second_res.memo, r#"Transaction 2 Memo"#);
    assert_eq!(second_res.transaction_amount, r#"-5.01"#);
    assert_eq!(second_res.refnum, r#"2"#);
}

#[test]
fn test_unparsable_file_names_source() {
    let result = parse_ofx_with_fallback("nothing resembling a statement", "bad_file.ofx");
    let err = result.err().expect("an unparsable file must be rejected");
    assert_eq!(err.file_name, "bad_file.ofx");
}

#[test]
fn test_single_line_dispatch_two_blocks() {
    let content = "<OFX><STMTTRN><TRNTYPE>DEBIT<MEMO>First memo<REFNUM>1</STMTTRN><STMTTRN><TRNTYPE>CREDIT<MEMO>Second memo<REFNUM>2</STMTTRN></OFX>";
    // neither the XML reader nor the line-oriented pass finds a record here
    assert!(parse_as_xml(content).map_or(true, |v| v.is_empty()));
    assert_eq!(parse_as_sgml(content).len(), 0);
    // so the dispatcher must fall through to the single-line strategy
    let result = parse_ofx_with_fallback(content, "one_line").unwrap();
    assert_eq!(result.len(), 2);
    assert_eq!(result[0].refnum, "1");
    assert_eq!(result[0].memo, "First memo");
    assert_eq!(result[1].refnum, "2");
    assert_eq!(result[1].memo, "Second memo");
}

#[test]
fn test_format_invariance_across_encodings() {
    // one logical statement: a single transaction, serialized three ways
    let xml = "<OFX><STMTTRN><TRNTYPE>DEBIT</TRNTYPE><DTPOSTED>20251212120000</DTPOSTED><TRNAMT>-999.99</TRNAMT><REFNUM>77</REFNUM><NAME>Payment Place</NAME><MEMO>Preauthorized Debit</MEMO></STMTTRN></OFX>";
    let sgml = "<OFX>\n<STMTTRN>\n<TRNTYPE>DEBIT\n<DTPOSTED>20251212120000\n<TRNAMT>-999.99\n<REFNUM>77\n<NAME>Payment Place\n<MEMO>Preauthorized Debit\n</STMTTRN>\n</OFX>";
    let one_line = "<OFX><STMTTRN><TRNTYPE>DEBIT<DTPOSTED>20251212120000<TRNAMT>-999.99<REFNUM>77<NAME>Payment Place<MEMO>Preauthorized Debit</STMTTRN></OFX>";
    let mut normalized = Vec::new();
    for content in [xml, sgml, one_line] {
        let records = parse_ofx_with_fallback(content, "invariance").unwrap();
        assert_eq!(records.len(), 1);
        normalized.push(records[0].to_transport());
    }
    for t in &normalized[1..] {
        assert_eq!(t.description, normalized[0].description);
        assert_eq!(t.amount, normalized[0].amount);
        assert_eq!(t.refnum, normalized[0].refnum);
    }
}

#[test]
fn test_parse_sgml_line_splits_tag_and_value() {
    let (tag, value) = parse_sgml_line("<TRNAMT>-999.99").unwrap();
    assert_eq!(tag, "TRNAMT");
    assert_eq!(value, "-999.99");
    let (tag, value) = parse_sgml_line("<NAME>Payment Place <MEMO>rest").unwrap();
    assert_eq!(tag, "NAME");
    assert_eq!(value, "Payment Place");
    assert!(parse_sgml_line("no tag here").is_none());
    assert!(parse_sgml_line("<UNCLOSED").is_none());
}

#[test]
fn test_sgml_fitid_and_refnum_share_field() {
    let content = "<STMTTRN>\n<FITID>abc\n</STMTTRN>\n<STMTTRN>\n<FITID>abc\n<REFNUM>xyz\n</STMTTRN>";
    let records = parse_as_sgml(content);
    assert_eq!(records.len(), 2);
    assert_eq!(records[0].refnum, "abc");
    assert_eq!(records[1].refnum, "xyz");
}

#[test]
fn test_unicode_whitespace_is_trimmed() {
    // a no-break-space-padded value trims like an ASCII one
    let (tag, value) = parse_sgml_line("<NAME>\u{a0}Payment Place\u{a0}").unwrap();
    assert_eq!(tag, "NAME");
    assert_eq!(value, "Payment Place");
}

#[test]
fn test_record_new_is_empty() {
    let r = TempTranFromXml::new();
    assert_eq!(r.transaction_type, "");
    assert_eq!(r.date_posted, "");
    assert_eq!(r.transaction_amount, "");
    assert_eq!(r.refnum, "");
    assert_eq!(r.name, "");
    assert_eq!(r.memo, "");
}
