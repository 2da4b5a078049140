use llm_gateway::repositories::vram_repository::{
    available_of_fields, field_bytes, get_available_memory, memory_of_fields, Memory,
    VramRepository,
};

const REPORT: &str = r#"{"card0": {"VRAM Total Memory (B)": "51522830336", "VRAM Total Used Memory (B)": "1500000001"}}"#;

#[test]
fn memory_is_read_from_the_report() {
    let probe = VramRepository::new();
    assert_eq!(
        probe.get_memory(Some(REPORT)),
        Memory { total_mb: 51523, used_mb: 1501 }
    );
    assert_eq!(probe.get_total_memory(Some(REPORT)), 51523);
    assert_eq!(probe.get_used_memory(Some(REPORT)), 1501);
    assert_eq!(probe.get_free_memory(Some(REPORT)), 50022);
    assert_eq!(get_available_memory(Some(REPORT)), 50022);
}

#[test]
fn the_first_card_is_read() {
    let report = r#"{"card1": {"VRAM Total Memory (B)": "2000000", "VRAM Total Used Memory (B)": "1"},
                     "card0": {"VRAM Total Memory (B)": "9000000", "VRAM Total Used Memory (B)": "0"}}"#;
    assert_eq!(
        VramRepository::new().get_memory(Some(report)),
        Memory { total_mb: 9, used_mb: 0 }
    );
}

#[test]
fn a_report_that_cannot_be_read_gives_no_memory() {
    let probe = VramRepository::new();
    let nothing = Memory { total_mb: 0, used_mb: 0 };
    assert_eq!(probe.get_memory(None), nothing);
    assert_eq!(probe.get_memory(Some("")), nothing);
    assert_eq!(probe.get_memory(Some("not json")), nothing);
    assert_eq!(probe.get_memory(Some("[1, 2]")), nothing);
    assert_eq!(probe.get_memory(Some("{}")), nothing);
    assert_eq!(probe.get_memory(Some(r#"{"card0": 5}"#)), nothing);
    assert_eq!(probe.get_memory(Some(r#"{"card0": {"VRAM Total Memory (B)": 5}}"#)), nothing);
    assert_eq!(probe.get_free_memory(None), 0);
    assert_eq!(get_available_memory(None), 0);
    assert_eq!(get_available_memory(Some("{")), 0);
    assert_eq!(Memory::default(), nothing);
}

#[test]
fn a_missing_field_counts_as_zero() {
    let report = r#"{"card0": {"VRAM Total Memory (B)": "3000000"}}"#;
    let probe = VramRepository::new();
    assert_eq!(probe.get_memory(Some(report)), Memory { total_mb: 3, used_mb: 0 });
    assert_eq!(get_available_memory(Some(report)), 3);
    let used_only = r#"{"card0": {"VRAM Total Used Memory (B)": "3000000"}}"#;
    assert_eq!(probe.get_memory(Some(used_only)), Memory { total_mb: 0, used_mb: 3 });
    assert_eq!(probe.get_free_memory(Some(used_only)), 0);
    assert_eq!(get_available_memory(Some(used_only)), 0);
}

#[test]
fn fields_are_decimal_numbers_of_bytes() {
    assert_eq!(field_bytes(Some("12")), 12);
    assert_eq!(field_bytes(Some("+12")), 12);
    assert_eq!(field_bytes(Some("18446744073709551615")), u64::MAX);
    assert_eq!(field_bytes(Some("18446744073709551616")), 0);
    assert_eq!(field_bytes(Some(" 12")), 0);
    assert_eq!(field_bytes(Some("-1")), 0);
    assert_eq!(field_bytes(Some("")), 0);
    assert_eq!(field_bytes(None), 0);
}

#[test]
fn megabytes_are_rounded_up_and_free_memory_down() {
    assert_eq!(
        memory_of_fields(Some("1000000"), Some("1000001")),
        Memory { total_mb: 1, used_mb: 2 }
    );
    assert_eq!(memory_of_fields(Some("1"), Some("0")), Memory { total_mb: 1, used_mb: 0 });
    assert_eq!(
        memory_of_fields(Some("18446744073709551615"), None),
        Memory { total_mb: 18446744073710, used_mb: 0 }
    );
    assert_eq!(available_of_fields(Some("2999999"), Some("1000000")), 1);
    assert_eq!(available_of_fields(Some("3000000"), Some("1000000")), 2);
    assert_eq!(available_of_fields(Some("1000000"), Some("3000000")), 0);
    assert_eq!(available_of_fields(None, Some("3000000")), 0);
    assert_eq!(available_of_fields(Some("999999"), None), 0);
}
