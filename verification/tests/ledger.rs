use moneyd::ledger::HashLedger;

#[test]
fn from_text_reads_lines() {
    let led = HashLedger::from_text("AAAA\nBBBB\nCCCC");
    assert!(led.contains_hash("AAAA"));
    assert!(led.contains_hash("BBBB"));
    assert!(led.contains_hash("CCCC"));
    assert!(!led.contains_hash("DDDD"));
    assert!(!led.contains_hash(""));
}

#[test]
fn from_text_tolerates_line_endings() {
    let led = HashLedger::from_text("AAAA\r\nBBBB\n");
    assert!(led.contains_hash("AAAA"));
    assert!(led.contains_hash("BBBB"));
    assert!(!led.contains_hash("AAAA\r"));
}

#[test]
fn empty_text_is_an_empty_ledger() {
    let led = HashLedger::from_text("");
    assert!(!led.contains_hash(""));
    assert_eq!(led.to_text(), "");
}

#[test]
fn add_hash_keeps_first_occurrence() {
    let mut led = HashLedger::new();
    led.add_hash("X".to_string());
    led.add_hash("Y".to_string());
    led.add_hash("X".to_string());
    assert_eq!(led.to_text(), "X\nY");
}

#[test]
fn add_multiple_hashes_merges() {
    let mut led = HashLedger::from_text("A\nB");
    led.add_multiple_hashes(&vec!["B".to_string(), "C".to_string()]);
    assert!(led.contains_hash("A"));
    assert!(led.contains_hash("B"));
    assert!(led.contains_hash("C"));
    assert_eq!(led.to_text(), "A\nB\nC");
}

#[test]
fn render_and_reload_round_trip() {
    let mut led = HashLedger::new();
    led.add_hash("abc123".to_string());
    led.add_hash("def456".to_string());
    let text = led.to_text();
    let reloaded = HashLedger::from_text(text.as_str());
    assert!(reloaded.contains_hash("abc123"));
    assert!(reloaded.contains_hash("def456"));
    assert!(!reloaded.contains_hash("zzz"));
    assert_eq!(reloaded.to_text(), text);
}
