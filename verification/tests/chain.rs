use hwid::prober::{
    baseboard_report_contribution, hardware_tree_contribution, machine_id_contribution,
    management_fields_contribution, probe, system_summary_contribution, NoHardwareInfo,
    ProbeChain, SourceReadings, SourceTier,
};

fn empty_readings() -> SourceReadings {
    SourceReadings {
        baseboard_report: None,
        board_serial: None,
        board_vendor: None,
        board_name: None,
        system_summary: None,
        machine_id: None,
        machine_id_fallback: None,
    }
}

#[test]
fn management_fields_concatenate_in_fixed_order() {
    let c = management_fields_contribution(
        &Some(b" SN1 ".to_vec()),
        &Some(b"Acme".to_vec()),
        &Some(b"Board X\n".to_vec()),
    );
    assert_eq!(c, b"SN1AcmeBoard X".to_vec());
}

#[test]
fn management_placeholder_serial_is_rejected() {
    let c = management_fields_contribution(
        &Some(b"To be filled by O.E.M.".to_vec()),
        &Some(b"Acme".to_vec()),
        &None,
    );
    assert_eq!(c, b"Acme".to_vec());
}

#[test]
fn management_all_placeholders_yield_nothing() {
    let c = management_fields_contribution(
        &Some(b"  To be filled by O.E.M.\n".to_vec()),
        &Some(b"To be filled by O.E.M.".to_vec()),
        &Some(b"   ".to_vec()),
    );
    assert_eq!(c, Vec::<u8>::new());
}

#[test]
fn baseboard_report_extracts_three_fields() {
    let report = b"Handle 0x0002\nManufacturer: Acme\nProduct Name: Board X\nSerial Number: SN123\n"
        .to_vec();
    let c = baseboard_report_contribution(&report);
    // Serial comes first however the report orders its lines.
    assert_eq!(c, b"SN123AcmeBoard X".to_vec());
}

#[test]
fn baseboard_report_placeholder_falls_through() {
    let report = b"Serial Number: To be filled by O.E.M.\n".to_vec();
    assert_eq!(baseboard_report_contribution(&report), Vec::<u8>::new());

    let mut r = empty_readings();
    r.baseboard_report = Some(report);
    r.board_serial = Some(b"TREE9\n".to_vec());
    let raw = probe(&r).expect("fallback tier should win");
    assert_eq!(raw.as_bytes(), &b"TREE9".to_vec());
}

#[test]
fn hardware_tree_concatenates_trimmed_attributes() {
    let c = hardware_tree_contribution(
        &Some(b"SER\n".to_vec()),
        &Some(b" Acme ".to_vec()),
        &Some(b"B450M\n".to_vec()),
    );
    assert_eq!(c, b"SERAcmeB450M".to_vec());
}

#[test]
fn system_summary_extracts_uuid_then_serial() {
    let report =
        b"Hardware Overview:\n\n  Hardware UUID: 1234-ABCD\n  Serial Number (system): C02XYZ\n"
            .to_vec();
    let c = system_summary_contribution(&report);
    assert_eq!(c, b"1234-ABCDC02XYZ".to_vec());
}

#[test]
fn machine_id_prefers_primary_file() {
    assert_eq!(
        machine_id_contribution(&Some(b" abc123 \n".to_vec()), &Some(b"def".to_vec())),
        b"abc123".to_vec()
    );
    assert_eq!(
        machine_id_contribution(&None, &Some(b"def\n".to_vec())),
        b"def".to_vec()
    );
    assert_eq!(machine_id_contribution(&None, &None), Vec::<u8>::new());
}

#[test]
fn chain_short_circuits_after_first_non_empty_tier() {
    let mut chain = ProbeChain::new();
    let mut consulted: Vec<SourceTier> = Vec::new();
    while let Some(tier) = chain.pending {
        consulted.push(tier);
        let contribution = match tier {
            SourceTier::Management => b"SN123".to_vec(),
            // A recording stand-in for the lower tiers: reaching one
            // would be a short-circuit violation.
            _ => b"LOWER".to_vec(),
        };
        chain.feed(contribution);
    }
    assert_eq!(consulted, vec![SourceTier::Management]);
    let raw = chain.outcome().expect("first tier contributed");
    assert_eq!(raw.as_bytes(), &b"SN123".to_vec());
}

#[test]
fn chain_consults_every_tier_when_all_are_empty() {
    let mut chain = ProbeChain::new();
    let mut consulted: Vec<SourceTier> = Vec::new();
    while let Some(tier) = chain.pending {
        consulted.push(tier);
        chain.feed(Vec::new());
    }
    assert_eq!(
        consulted,
        vec![
            SourceTier::Management,
            SourceTier::HardwareTree,
            SourceTier::SystemSummary,
            SourceTier::MachineIdFile,
        ]
    );
    assert_eq!(chain.outcome().err(), Some(NoHardwareInfo));
}

#[test]
fn probe_success_is_never_empty() {
    let mut r = empty_readings();
    r.machine_id = Some(b"deadbeef\n".to_vec());
    let raw = probe(&r).expect("last tier contributed");
    assert!(!raw.is_empty());
    assert_eq!(raw.as_bytes(), &b"deadbeef".to_vec());
}

#[test]
fn probe_tier_order_is_management_tree_summary_machine_id() {
    let mut r = empty_readings();
    r.baseboard_report = Some(b"Serial Number: TOP\n".to_vec());
    r.board_serial = Some(b"TREE".to_vec());
    r.system_summary = Some(b"Hardware UUID: SUMM\n".to_vec());
    r.machine_id = Some(b"MID".to_vec());
    assert_eq!(probe(&r).unwrap().as_bytes(), &b"TOP".to_vec());

    r.baseboard_report = None;
    assert_eq!(probe(&r).unwrap().as_bytes(), &b"TREE".to_vec());

    r.board_serial = None;
    assert_eq!(probe(&r).unwrap().as_bytes(), &b"SUMM".to_vec());

    r.system_summary = None;
    assert_eq!(probe(&r).unwrap().as_bytes(), &b"MID".to_vec());
}

#[test]
fn probe_with_no_source_fails() {
    let r = empty_readings();
    assert_eq!(probe(&r).err(), Some(NoHardwareInfo));
}
