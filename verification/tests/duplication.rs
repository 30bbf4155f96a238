use duplicate_mdd::engine::generate_duplicated_records;
use duplicate_mdd::model::{DuplicateMddError, DuplicationOptions, MddFieldValue, MddFileInfo};
use duplicate_mdd::parser::load_mdd_records;
use duplicate_mdd::pipeline::{
    JobState, MddProcessor, build_performance_report, estimate_memory_bytes,
    estimate_remaining_seconds, job_advance, output_base_name, run_duplication,
};
use duplicate_mdd::validate::check_workspace_space;

fn five_var_ddf() -> String {
    let mut s = String::new();
    s.push_str("RespondentSerial \"Serial\" Text Width(2)\n");
    s.push_str("Name \"Name\" Text Width(2)\n");
    s.push_str("Age \"Age\" Double Width(2)\n");
    s.push_str("Active \"Active\" Boolean Width(2)\n");
    s.push_str("Region \"Region\" Categorical Width(2)\n");
    s
}

fn hundred_record_buffer() -> Vec<u8> {
    // five variables of width 2 give a 10-byte record; 1000 bytes parse as
    // exactly 100 records
    (0..1000).map(|i| (i % 251) as u8).collect()
}

#[test]
fn output_count_is_factor_times_input_count() {
    let vars = MddFileInfo::parse_ddf_file(&five_var_ddf());
    let records = load_mdd_records(&hundred_record_buffer(), &vars);
    assert_eq!(records.len(), 100);
    for n in [1u32, 2, 3, 7] {
        let out = generate_duplicated_records(&records, n);
        assert_eq!(out.len(), 100 * n as usize);
    }
}

#[test]
fn record_identifiers_are_contiguous_from_zero() {
    let vars = MddFileInfo::parse_ddf_file(&five_var_ddf());
    let records = load_mdd_records(&hundred_record_buffer(), &vars);
    let out = generate_duplicated_records(&records, 3);
    for (k, rec) in out.iter().enumerate() {
        assert_eq!(rec.record_id as usize, k);
    }
}

#[test]
fn respondent_serial_is_unique_across_three_copies_of_hundred_records() {
    let vars = MddFileInfo::parse_ddf_file(&five_var_ddf());
    let records = load_mdd_records(&hundred_record_buffer(), &vars);
    let out = generate_duplicated_records(&records, 3);
    assert_eq!(out.len(), 300);
    let mut serials: Vec<String> = Vec::new();
    for rec in out.iter() {
        match &rec.variables[0] {
            (name, MddFieldValue::Text(t)) => {
                assert_eq!(name, "RespondentSerial");
                serials.push(t.clone());
            },
            _ => panic!("expected a text serial"),
        }
    }
    let mut sorted = serials.clone();
    sorted.sort();
    sorted.dedup();
    assert_eq!(sorted.len(), serials.len());
}

#[test]
fn rewritten_text_encodes_copy_and_position() {
    let vars = MddFileInfo::parse_ddf_file("Serial \"s\" Text Width(4)\n");
    let buffer: Vec<u8> = vec![0; 8];
    let records = load_mdd_records(&buffer, &vars);
    let out = generate_duplicated_records(&records, 2);
    let texts: Vec<String> = out
        .iter()
        .map(|r| match &r.variables[0].1 {
            MddFieldValue::Text(t) => t.clone(),
            _ => panic!("expected text"),
        })
        .collect();
    assert_eq!(texts, vec!["Text_0_d0_r0", "Text_1_d0_r1", "Text_0_d1_r0", "Text_1_d1_r1"]);
}

#[test]
fn rewritten_numbers_gain_offset_per_copy() {
    let vars = MddFileInfo::parse_ddf_file("SerialNum \"s\" Double Width(4)\n");
    let buffer: Vec<u8> = vec![0; 8];
    let records = load_mdd_records(&buffer, &vars);
    let out = generate_duplicated_records(&records, 2);
    let nums: Vec<i64> = out
        .iter()
        .map(|r| match &r.variables[0].1 {
            MddFieldValue::Number(n) => *n,
            _ => panic!("expected number"),
        })
        .collect();
    assert_eq!(nums, vec![0, 2, 1_000_000, 1_000_002]);
}

#[test]
fn single_copy_alters_nothing_but_identifier_offsets() {
    let vars = MddFileInfo::parse_ddf_file(&five_var_ddf());
    let buffer = hundred_record_buffer();
    let records = load_mdd_records(&buffer, &vars);
    let out = generate_duplicated_records(&records, 1);
    assert_eq!(out.len(), records.len());
    for (p, (orig, copy)) in records.iter().zip(out.iter()).enumerate() {
        assert_eq!(copy.data, orig.data);
        assert_eq!(copy.record_id as usize, p);
        for (j, ((oname, oval), (cname, cval))) in
            orig.variables.iter().zip(copy.variables.iter()).enumerate()
        {
            assert_eq!(oname, cname);
            match (oval, cval) {
                (MddFieldValue::Text(a), MddFieldValue::Text(b)) => {
                    if j == 0 {
                        assert_eq!(*b, format!("{}_d0_r{}", a, p));
                    } else {
                        assert_eq!(a, b);
                    }
                },
                (MddFieldValue::Number(a), MddFieldValue::Number(b)) => assert_eq!(a, b),
                (MddFieldValue::Boolean(a), MddFieldValue::Boolean(b)) => assert_eq!(a, b),
                (MddFieldValue::Null, MddFieldValue::Null) => {},
                _ => panic!("field kind changed"),
            }
        }
    }
}

#[test]
fn missing_companion_fails_before_any_work() {
    let r = run_duplication(&Some(vec![1, 2, 3, 4]), &None, 2, "ts");
    match r {
        Err(DuplicateMddError::FileNotFound(m)) => assert_eq!(m, "DDF file not found"),
        _ => panic!("expected FileNotFound"),
    }
    let r2 = run_duplication(&None, &Some(five_var_ddf()), 2, "ts");
    match r2 {
        Err(DuplicateMddError::FileNotFound(m)) => assert_eq!(m, "MDD file not found"),
        _ => panic!("expected FileNotFound"),
    }
    let r3 = run_duplication(&Some(vec![1, 2]), &Some(five_var_ddf()), 2, "ts");
    assert!(matches!(r3, Err(DuplicateMddError::InvalidFileFormat(_))));
}

#[test]
fn pipeline_produces_files_counts_and_monotone_progress() {
    let out = run_duplication(
        &Some(hundred_record_buffer()),
        &Some(five_var_ddf()),
        3,
        "20250102_030405",
    )
    .unwrap();
    assert_eq!(out.original_records, 100);
    assert_eq!(out.final_records, 300);
    assert_eq!(out.base_name, "duplicated_3x_20250102_030405");
    assert!(out.mdd_bytes.starts_with(b"MDD_DUPLICATED_V1\n300\n"));
    assert_eq!(out.mdd_bytes.len(), b"MDD_DUPLICATED_V1\n300\n".len() + 300 * 10);
    let reparsed = MddFileInfo::parse_ddf_file(&out.ddf_text);
    assert_eq!(reparsed.len(), 5);
    assert_eq!(out.progress.len(), 5);
    let percents: Vec<u32> = out.progress.iter().map(|p| p.progress_percent).collect();
    assert_eq!(percents, vec![0, 15, 60, 85, 100]);
    assert_eq!(out.progress[4].records_processed, 300);
}

#[test]
fn processor_carries_its_configuration() {
    let options = DuplicationOptions {
        include_metadata_validation: true,
        generate_verification_report: true,
        auto_open_result_folder: false,
        keep_temp_files: false,
    };
    let p = MddProcessor::new(
        "in/survey.mdd".to_string(),
        "in/survey.ddf".to_string(),
        "out".to_string(),
        2,
        options,
    );
    assert_eq!(p.input_mdd_path, "in/survey.mdd");
    assert_eq!(p.duplicate_count, 2);
    assert!(p.options.generate_verification_report);
    let out = p
        .process_duplication(&Some(hundred_record_buffer()), &Some(five_var_ddf()), "ts")
        .unwrap();
    assert_eq!(out.final_records, 200);
}

#[test]
fn workspace_space_check_reports_shortage() {
    assert!(check_workspace_space(100, 50).is_ok());
    match check_workspace_space(10, 50) {
        Err(DuplicateMddError::InsufficientDiskSpace { needed, available }) => {
            assert_eq!(needed, 50);
            assert_eq!(available, 10);
        },
        _ => panic!("expected InsufficientDiskSpace"),
    }
}

#[test]
fn remaining_time_scales_elapsed_by_progress() {
    assert_eq!(estimate_remaining_seconds(30, 50), 30);
    assert_eq!(estimate_remaining_seconds(10, 0), 0);
    assert_eq!(estimate_remaining_seconds(10, 100), 0);
    assert_eq!(estimate_remaining_seconds(7, 25), 21);
}

#[test]
fn memory_estimate_scales_sample_mean() {
    let vars = MddFileInfo::parse_ddf_file("A \"a\" Text Width(10)\n");
    let buffer: Vec<u8> = vec![0; 30];
    let records = load_mdd_records(&buffer, &vars);
    assert_eq!(records.len(), 3);
    // each record: 10 payload bytes plus one overlay field at 50 bytes
    assert_eq!(estimate_memory_bytes(&records), 180);
    assert_eq!(estimate_memory_bytes(&Vec::new()), 0);
}

#[test]
fn job_states_advance_in_order_and_fail_terminally() {
    let mut s = JobState::Validating;
    let order = [
        JobState::Loading,
        JobState::Duplicating,
        JobState::Writing,
        JobState::Packaging,
        JobState::Reporting,
        JobState::Complete,
    ];
    for next in order {
        s = job_advance(s, true);
        assert_eq!(s, next);
    }
    assert_eq!(job_advance(s, false), JobState::Complete);
    let failed = job_advance(JobState::Duplicating, false);
    assert_eq!(failed, JobState::Failed);
    assert_eq!(job_advance(failed, true), JobState::Failed);
}

#[test]
fn base_name_and_report_are_exact() {
    assert_eq!(output_base_name(4, "20250102_030405"), "duplicated_4x_20250102_030405");
    let report = build_performance_report(
        "2025-01-02T03:04:05Z", 100, 300, 3, 12, 4096, "in.mdd", "in.ddf", "out.zip",
    );
    assert!(report.starts_with("DUPLICATION PERFORMANCE REPORT\n"));
    assert!(report.contains("- Original records: 100\n"));
    assert!(report.contains("- Final records: 300\n"));
    assert!(report.contains("- Duplication factor: 3x\n"));
    assert!(report.contains("- Processing time: 12s\n"));
    assert!(report.contains("- Records per second: 25\n"));
    assert!(report.contains("- Output file size: 0 MB\n"));
    assert!(report.contains("- Memory efficiency: 300 records/MB\n"));
    assert!(report.contains("- Output: out.zip\n"));
    let big = build_performance_report(
        "2025-01-02T03:04:05Z", 100, 300, 3, 0, 3 * 1_048_576, "in.mdd", "in.ddf", "out.zip",
    );
    assert!(big.contains("- Records per second: 300\n"));
    assert!(big.contains("- Output file size: 3 MB\n"));
    assert!(big.contains("- Memory efficiency: 100 records/MB\n"));
}
