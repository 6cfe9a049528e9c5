use hwid::text::{contains_bytes, extract_field, split_lines, trim_bytes};

#[test]
fn field_extraction_serial_and_manufacturer() {
    let text = b"Serial Number: ABC123\nManufacturer: Acme".to_vec();
    let serial = extract_field(&text, &b"Serial Number:".to_vec());
    assert_eq!(serial, Some(b"ABC123".to_vec()));
    let manufacturer = extract_field(&text, &b"Manufacturer:".to_vec());
    assert_eq!(manufacturer, Some(b"Acme".to_vec()));
}

#[test]
fn field_extraction_trims_whitespace() {
    let text = b"Product Name:   Board X  \t\n".to_vec();
    let product = extract_field(&text, &b"Product Name:".to_vec());
    assert_eq!(product, Some(b"Board X".to_vec()));
}

#[test]
fn field_extraction_takes_first_matching_line() {
    let text = b"Serial Number: first\nSerial Number: second\n".to_vec();
    let serial = extract_field(&text, &b"Serial Number:".to_vec());
    assert_eq!(serial, Some(b"first".to_vec()));
}

#[test]
fn field_extraction_takes_everything_after_first_colon() {
    let text = b"Hardware UUID: 0000-1111:2222\n".to_vec();
    let uuid = extract_field(&text, &b"Hardware UUID:".to_vec());
    // The line splits at its first colon; later colons stay in the value.
    assert_eq!(uuid, Some(b"0000-1111:2222".to_vec()));
}

#[test]
fn field_extraction_missing_label_yields_nothing() {
    let text = b"Manufacturer: Acme\n".to_vec();
    let serial = extract_field(&text, &b"Serial Number:".to_vec());
    assert_eq!(serial, None);
}

#[test]
fn field_extraction_line_without_colon_yields_nothing() {
    let text = b"Serial Number absent\n".to_vec();
    let serial = extract_field(&text, &b"Serial Number".to_vec());
    assert_eq!(serial, None);
}

#[test]
fn field_extraction_label_is_case_sensitive() {
    let text = b"serial number: abc\n".to_vec();
    let serial = extract_field(&text, &b"Serial Number:".to_vec());
    assert_eq!(serial, None);
}

#[test]
fn trim_removes_surrounding_whitespace_only() {
    assert_eq!(trim_bytes(&b"  a b \r\n".to_vec()), b"a b".to_vec());
    assert_eq!(trim_bytes(&b"\t\n \r".to_vec()), Vec::<u8>::new());
    assert_eq!(trim_bytes(&b"plain".to_vec()), b"plain".to_vec());
}

#[test]
fn contains_finds_substrings() {
    let hay = b"Baseboard Serial Number: X".to_vec();
    assert!(contains_bytes(&hay, &b"Serial Number:".to_vec()));
    assert!(!contains_bytes(&hay, &b"Product Name:".to_vec()));
    assert!(contains_bytes(&hay, &Vec::new()));
}

#[test]
fn lines_split_on_line_feed() {
    let lines = split_lines(&b"a\nbc\n\nd".to_vec());
    assert_eq!(lines, vec![b"a".to_vec(), b"bc".to_vec(), Vec::new(), b"d".to_vec()]);
}
