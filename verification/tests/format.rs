use duplicate_mdd::ddf::parse_ddf_line;
use duplicate_mdd::model::{DuplicateMddError, MddFieldValue, MddFileInfo, MddVariableType};
use duplicate_mdd::parser::{estimate_record_size, load_mdd_records};
use duplicate_mdd::paths::{base_name_of, derive_ddf_path};
use duplicate_mdd::text::{is_identifier_like, u64_to_dec_bytes, u64_to_dec_string};
use duplicate_mdd::validate::{estimate_duplication_resources, validate_mdd_file};
use duplicate_mdd::writer::{build_ddf_text, build_mdd_bytes, format_variable_type};
use duplicate_mdd::model::MddRecord;

fn sample_ddf() -> String {
    let mut s = String::new();
    s.push_str("# comment line\n");
    s.push_str("\n");
    s.push_str("RespondentSerial \"Serial\" Text Width(2)\n");
    s.push_str("Name \"FullName\" Text Width(2)\n");
    s.push_str("Age \"Age\" Double Width(2)\n");
    s.push_str("Active \"Active\" Boolean Width(2)\n");
    s.push_str("Region \"Region\" Categorical Width(2)\n");
    s
}

#[test]
fn parse_ddf_counts_variables_and_skips_comments() {
    let vars = MddFileInfo::parse_ddf_file(&sample_ddf());
    assert_eq!(vars.len(), 5);
    assert_eq!(vars[0].name, "RespondentSerial");
    assert_eq!(vars[0].label, "Serial");
    assert!(matches!(vars[0].var_type, MddVariableType::Text));
    assert_eq!(vars[0].width, 2);
    assert!(matches!(vars[2].var_type, MddVariableType::Number));
    assert!(matches!(vars[3].var_type, MddVariableType::Boolean));
    assert!(matches!(vars[4].var_type, MddVariableType::Categorical));
}

#[test]
fn parse_ddf_twice_is_identical() {
    let content = sample_ddf();
    let a = MddFileInfo::parse_ddf_file(&content);
    let b = MddFileInfo::parse_ddf_file(&content);
    assert_eq!(a.len(), b.len());
    for (x, y) in a.iter().zip(b.iter()) {
        assert_eq!(x.name, y.name);
        assert_eq!(x.label, y.label);
        assert_eq!(x.width, y.width);
        assert_eq!(format_variable_type(x.var_type), format_variable_type(y.var_type));
    }
}

#[test]
fn parse_ddf_line_skips_and_parses() {
    assert!(parse_ddf_line("").is_none());
    assert!(parse_ddf_line("   ").is_none());
    assert!(parse_ddf_line("# comment").is_none());
    let v = parse_ddf_line("Serial \"TheSerial\" Text Width(8)").unwrap();
    assert_eq!(v.name, "Serial");
    assert_eq!(v.label, "TheSerial");
    assert!(matches!(v.var_type, MddVariableType::Text));
    assert_eq!(v.width, 8);
    let bare = parse_ddf_line("JustAName").unwrap();
    assert_eq!(bare.name, "JustAName");
    assert_eq!(bare.label, "");
    assert!(matches!(bare.var_type, MddVariableType::Unknown));
    assert_eq!(bare.width, 0);
    let odd = parse_ddf_line("N L T Width(xyz)").unwrap();
    assert_eq!(odd.width, 0);
}

#[test]
fn four_byte_dataset_is_minimally_valid() {
    let ok = MddFileInfo::parse_mdd_file(&vec![1u8, 2, 3, 4]);
    assert!(ok.is_ok());
    let s = ok.unwrap();
    assert_eq!(s.header.signature, "MDD");
    assert_eq!(s.header.version, "Unknown");
}

#[test]
fn three_byte_dataset_is_invalid_format() {
    let err = MddFileInfo::parse_mdd_file(&vec![1u8, 2, 3]);
    match err {
        Err(DuplicateMddError::InvalidFileFormat(m)) => {
            assert_eq!(m, "File too small to be valid MDD");
        },
        _ => panic!("expected InvalidFileFormat"),
    }
    assert!(MddFileInfo::parse_mdd_file(&Vec::new()).is_err());
}

#[test]
fn decimal_rendering_is_exact() {
    assert_eq!(u64_to_dec_string(0), "0");
    assert_eq!(u64_to_dec_string(10), "10");
    assert_eq!(u64_to_dec_string(12345), "12345");
    assert_eq!(u64_to_dec_string(u64::MAX), "18446744073709551615");
    assert_eq!(u64_to_dec_bytes(407), vec![b'4', b'0', b'7']);
}

#[test]
fn identifier_like_names_are_detected() {
    assert!(is_identifier_like("RespondentSerial"));
    assert!(is_identifier_like("userID"));
    assert!(is_identifier_like("unique_key"));
    assert!(is_identifier_like("SERIAL_NUMBER"));
    assert!(!is_identifier_like("Age"));
    assert!(!is_identifier_like("Region"));
}

#[test]
fn companion_path_is_derived_from_dataset_path() {
    assert_eq!(derive_ddf_path("dir/survey.mdd"), "dir/survey.ddf");
    assert_eq!(derive_ddf_path("C:\\data\\survey.mdd"), "C:\\data\\survey.ddf");
    assert_eq!(derive_ddf_path("noext"), "noext.ddf");
    assert_eq!(base_name_of("dir/survey.mdd"), "survey");
    assert_eq!(base_name_of("C:\\data\\survey.mdd"), "survey");
    assert_eq!(base_name_of("plain"), "plain");
}

#[test]
fn record_size_estimate_follows_widths() {
    let vars = MddFileInfo::parse_ddf_file(&sample_ddf());
    assert_eq!(estimate_record_size(1000, &vars), 10);
    let none: Vec<duplicate_mdd::model::MddVariable> = Vec::new();
    assert_eq!(estimate_record_size(1000, &none), 200);
    let wide = MddFileInfo::parse_ddf_file("A \"a\" Text Width(999999)\n");
    assert_eq!(estimate_record_size(5000, &wide), 5);
}

#[test]
fn parser_synthesizes_placeholder_values() {
    let vars = MddFileInfo::parse_ddf_file("S \"s\" Text Width(4)\nN \"n\" Double Width(4)\n");
    let buffer: Vec<u8> = (0u8..16).collect();
    let recs = load_mdd_records(&buffer, &vars);
    assert_eq!(recs.len(), 2);
    assert_eq!(recs[0].record_id, 0);
    assert_eq!(recs[0].data, vec![0, 1, 2, 3, 4, 5, 6, 7]);
    assert_eq!(recs[1].data, vec![8, 9, 10, 11, 12, 13, 14, 15]);
    match &recs[1].variables[0].1 {
        MddFieldValue::Text(t) => assert_eq!(t, "Text_1"),
        _ => panic!("expected text"),
    }
    match &recs[1].variables[1].1 {
        MddFieldValue::Number(n) => assert_eq!(*n, 1),
        _ => panic!("expected number"),
    }
}

#[test]
fn mdd_writer_emits_tag_count_and_payloads() {
    let records = vec![
        MddRecord { record_id: 0, data: vec![1, 2], variables: Vec::new() },
        MddRecord { record_id: 1, data: vec![3, 4], variables: Vec::new() },
    ];
    let bytes = build_mdd_bytes(&records);
    let mut expected = b"MDD_DUPLICATED_V1\n2\n".to_vec();
    expected.extend_from_slice(&[1, 2, 3, 4]);
    assert_eq!(bytes, expected);
}

#[test]
fn ddf_writer_lists_every_variable() {
    let vars = MddFileInfo::parse_ddf_file(&sample_ddf());
    let text = build_ddf_text(&vars, 3, "20250102_030405", 300);
    let expected_header = "# DDF File - Duplicated 3 times\n# Generated: 20250102_030405\n# Total records: 300\n\n";
    assert!(text.starts_with(expected_header));
    let body = &text[expected_header.len()..];
    let lines: Vec<&str> = body.lines().collect();
    assert_eq!(lines.len(), vars.len());
    assert_eq!(lines[0], "RespondentSerial \"Serial\" Text Width(2)");
    assert_eq!(lines[2], "Age \"Age\" Double Width(2)");
    let reparsed = MddFileInfo::parse_ddf_file(&text);
    assert_eq!(reparsed.len(), vars.len());
    for (orig, back) in vars.iter().zip(reparsed.iter()) {
        assert_eq!(orig.name, back.name);
        assert_eq!(orig.label, back.label);
        assert_eq!(orig.width, back.width);
        // an undecoded type is written as text, every other type round-trips
        let written = format_variable_type(orig.var_type);
        assert_eq!(written, format_variable_type(back.var_type));
    }
}

#[test]
fn validate_mdd_file_reports_each_failure() {
    let missing = validate_mdd_file("x/survey.mdd", false, 0, false, 0);
    assert!(!missing.is_valid);
    assert_eq!(missing.error_message.as_deref(), Some("MDD file not found"));
    assert!(missing.file_info.is_none());
    let no_ddf = validate_mdd_file("x/survey.mdd", true, 10, false, 0);
    assert!(!no_ddf.is_valid);
    assert_eq!(no_ddf.ddf_path, "x/survey.ddf");
    assert_eq!(no_ddf.error_message.as_deref(), Some("Corresponding DDF file not found"));
    let ok = validate_mdd_file("x/survey.mdd", true, 10, true, 5);
    assert!(ok.is_valid);
    let info = ok.file_info.unwrap();
    assert_eq!(info.base_name, "survey");
    assert_eq!(info.mdd_size, 10);
    assert_eq!(info.ddf_size, 5);
}

#[test]
fn integrity_messages_name_the_missing_file() {
    let msgs = MddFileInfo::validate_mdd_integrity(&Some(vec![1, 2, 3, 4]), &None);
    assert_eq!(msgs, vec!["DDF file not found".to_string(),
        "DDF parsing error: file is missing".to_string()]);
    let good = MddFileInfo::validate_mdd_integrity(
        &Some(vec![1, 2, 3, 4]),
        &Some("A \"a\"\n".to_string()),
    );
    assert_eq!(good, vec!["Files appear to be compatible".to_string()]);
    let tiny = MddFileInfo::validate_mdd_integrity(&Some(vec![1]), &Some("A\n".to_string()));
    assert_eq!(tiny, vec!["MDD parsing error: File too small to be valid MDD".to_string()]);
}

#[test]
fn file_info_estimates_record_count_from_size() {
    let info = MddFileInfo::estimate_file_info("a/b.mdd", "a/b.ddf", 2000, 40);
    assert_eq!(info.record_count, Some(10));
    assert_eq!(info.base_name, "b");
    let tiny = MddFileInfo::estimate_file_info("a/b.mdd", "a/b.ddf", 5, 1);
    assert_eq!(tiny.record_count, Some(1));
}

#[test]
fn resource_estimate_is_exact_for_small_inputs() {
    let (mb, secs) = estimate_duplication_resources(2000, 100, 2, Some(10));
    assert_eq!(mb, 0);
    assert_eq!(secs, 5);
    let (mb2, secs2) = estimate_duplication_resources(200_000_000, 1000, 20, Some(1000));
    // record size 200000, records after duplication 20000, output about 4 GB
    assert_eq!(mb2, (
        ((200_000_000u64 / 1000).max(100) * 20_000 + 1024 + 1000) as u128
            + ((200_000_000u64 / 1000).max(100) * 20_000 + 1024 + 1000) as u128 / 4
    ) as u64 / 1_048_576);
    assert!(secs2 >= 5);
}
