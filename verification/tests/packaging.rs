use duplicate_mdd::archive::{package_entries, unpack_archive};
use duplicate_mdd::model::DuplicateMddError;
use duplicate_mdd::pipeline::{package_job, run_duplication};

fn five_var_ddf() -> String {
    let mut s = String::new();
    s.push_str("RespondentSerial \"Serial\" Text Width(2)\n");
    s.push_str("Name \"Name\" Text Width(2)\n");
    s.push_str("Age \"Age\" Double Width(2)\n");
    s.push_str("Active \"Active\" Boolean Width(2)\n");
    s.push_str("Region \"Region\" Categorical Width(2)\n");
    s
}

#[test]
fn packing_then_unpacking_is_byte_identical() {
    let dataset: Vec<u8> = (0u8..=255).cycle().take(4096).collect();
    let companion = five_var_ddf().into_bytes();
    let entries = vec![
        ("survey.mdd".to_string(), dataset.clone()),
        ("survey.ddf".to_string(), companion.clone()),
    ];
    let archive = package_entries(&entries).unwrap();
    let unpacked = unpack_archive(&archive).unwrap();
    assert_eq!(unpacked.len(), 2);
    assert_eq!(unpacked[0].0, "survey.mdd");
    assert_eq!(unpacked[0].1, dataset);
    assert_eq!(unpacked[1].0, "survey.ddf");
    assert_eq!(unpacked[1].1, companion);
}

#[test]
fn garbage_bytes_are_not_an_archive() {
    let r = unpack_archive(&vec![7u8; 64]);
    assert!(matches!(r, Err(DuplicateMddError::ArchiveError(_))));
}

#[test]
fn job_archive_holds_two_files_without_report() {
    let buffer: Vec<u8> = (0..1000).map(|i| (i % 251) as u8).collect();
    let out = run_duplication(&Some(buffer), &Some(five_var_ddf()), 3, "20250102_030405").unwrap();
    let archive = package_job(&out, &None).unwrap();
    let unpacked = unpack_archive(&archive).unwrap();
    assert_eq!(unpacked.len(), 2);
    assert_eq!(unpacked[0].0, "duplicated_3x_20250102_030405.mdd");
    assert_eq!(unpacked[0].1, out.mdd_bytes);
    assert_eq!(unpacked[1].0, "duplicated_3x_20250102_030405.ddf");
    assert_eq!(unpacked[1].1, out.ddf_text.as_bytes());
}

#[test]
fn job_archive_holds_report_as_third_file_when_requested() {
    let buffer: Vec<u8> = (0..1000).map(|i| (i % 251) as u8).collect();
    let out = run_duplication(&Some(buffer), &Some(five_var_ddf()), 3, "20250102_030405").unwrap();
    let report = "a short verification summary".to_string();
    let archive = package_job(&out, &Some(report.clone())).unwrap();
    let unpacked = unpack_archive(&archive).unwrap();
    assert_eq!(unpacked.len(), 3);
    assert_eq!(unpacked[2].0, "performance_report.txt");
    assert_eq!(unpacked[2].1, report.as_bytes());
}

#[test]
fn duplicate_entry_names_are_rejected() {
    let entries = vec![
        ("same.txt".to_string(), vec![1u8]),
        ("same.txt".to_string(), vec![2u8]),
    ];
    assert!(matches!(package_entries(&entries), Err(DuplicateMddError::ArchiveError(_))));
}
