use hwid::identifier::RawIdentifierString;
use hwid::prober::SourceReadings;
use hwid::shell::{get_hardware_identifier, HWIDApp};

#[test]
fn digest_matches_known_value() {
    // The 256-bit hash of the exact byte string "SN123AcmeBoardX",
    // rendered as lowercase hex.
    let raw = RawIdentifierString::from_bytes(b"SN123AcmeBoardX".to_vec());
    assert_eq!(
        raw.digest(),
        "1c357a14cd0ed8bb6b083ca7074625226c467285f11b43ff613c8e5143f5663e"
    );
}

#[test]
fn digest_is_deterministic() {
    let a = RawIdentifierString::from_bytes(b"Acme Board 42".to_vec());
    let b = RawIdentifierString::from_bytes(b"Acme Board 42".to_vec());
    let first = a.digest();
    let second = a.digest();
    assert_eq!(first, second);
    assert_eq!(first, b.digest());
}

#[test]
fn digest_is_64_lowercase_hex_characters() {
    let raw = RawIdentifierString::from_bytes(b"x".to_vec());
    let d = raw.digest();
    assert_eq!(d.len(), 64);
    assert!(d.chars().all(|c| c.is_ascii_hexdigit() && !c.is_ascii_uppercase()));
}

#[test]
fn digest_differs_for_different_raw_identifiers() {
    let a = RawIdentifierString::from_bytes(b"SN1".to_vec());
    let b = RawIdentifierString::from_bytes(b"SN2".to_vec());
    assert_ne!(a.digest(), b.digest());
}

#[test]
fn end_to_end_digest_from_baseboard_report() {
    let r = SourceReadings {
        baseboard_report: Some(
            b"Serial Number: SN123\nManufacturer: Acme\nProduct Name: BoardX\n".to_vec(),
        ),
        board_serial: None,
        board_vendor: None,
        board_name: None,
        system_summary: None,
        machine_id: None,
        machine_id_fallback: None,
    };
    let digest = get_hardware_identifier(&r).expect("tier contributed");
    assert_eq!(
        digest,
        "1c357a14cd0ed8bb6b083ca7074625226c467285f11b43ff613c8e5143f5663e"
    );
}

#[test]
fn end_to_end_failure_when_every_source_is_unavailable() {
    let r = SourceReadings {
        baseboard_report: None,
        board_serial: None,
        board_vendor: None,
        board_name: None,
        system_summary: None,
        machine_id: None,
        machine_id_fallback: None,
    };
    assert!(get_hardware_identifier(&r).is_err());
}

#[test]
fn shell_state_holds_identifier_on_success() {
    let app = HWIDApp::new(Ok("abc123".to_string()));
    assert_eq!(app.hwid, "abc123");
    assert!(app.error_message.is_none());
}

#[test]
fn shell_state_holds_failure_text_on_error() {
    let app = HWIDApp::new(Err("no hardware information".to_string()));
    assert_eq!(app.hwid, "");
    assert_eq!(app.error_message.as_deref(), Some("no hardware information"));
}
