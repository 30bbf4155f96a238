//! The duplication job: validate the input pair, parse both files,
//! duplicate the records, emit the two output file formats, and report
//! progress milestones.  Everything here is a pure computation over the
//! file contents the caller read; validation fails fast, before any
//! parsing or duplication work and before any progress is produced.

use vstd::prelude::*;
use crate::ddf::{LineParse, spec_parse_ddf, vars_match_parse, var_line};
use crate::engine::{dup_record_matches, fields_fit, generate_duplicated_records};
use crate::model::{
    DuplicateMddError, DuplicateMddResult, DuplicationOptions, DuplicationProgress, FieldV,
    MddFileInfo, MddRecord, MddVariable, fv,
};
use crate::parser::{
    load_mdd_records, record_matches, spec_num_records, spec_record_data, spec_record_size,
    spec_sum_widths,
};
use crate::text::{dec_bytes, dec_chars, u64_to_dec_string};
use crate::writer::{
    build_ddf_text, build_mdd_bytes, concat_payloads, mdd_magic, spec_ddf_header, spec_ddf_line,
    spec_ddf_lines, spec_type_name,
};
use vstd::string::*;

verus! {

/// Width sum of parsed descriptors, each width counted as at least one.
pub open spec fn lp_width_sum(lps: Seq<LineParse>) -> int
    decreases lps.len(),
{
    if lps.len() == 0 {
        0
    } else {
        lp_width_sum(lps.drop_last()) + if lps.last().width < 1 {
            1int
        } else {
            lps.last().width as int
        }
    }
}

/// Record size estimate, stated over the mathematical parse of the
/// companion file.
pub open spec fn spec_parsed_record_size(buffer_len: nat, lps: Seq<LineParse>) -> nat {
    if lps.len() == 0 {
        200
    } else {
        let s = lp_width_sum(lps);
        if 0 < s && s < 10000 {
            s as nat
        } else {
            buffer_len / 1000
        }
    }
}

/// Parsed record count, stated over the mathematical parse of the
/// companion file.
pub open spec fn spec_parsed_num_records(buffer_len: nat, lps: Seq<LineParse>) -> nat {
    let rs = spec_parsed_record_size(buffer_len, lps);
    if rs > 0 {
        if buffer_len / rs < 10000 {
            buffer_len / rs
        } else {
            10000
        }
    } else if buffer_len > 0 {
        1
    } else {
        0
    }
}

/// One companion-file output line, stated over a parsed descriptor.
pub open spec fn spec_lp_ddf_line(lp: LineParse) -> Seq<char> {
    lp.name + " \""@ + lp.label + "\" "@ + spec_type_name(lp.var_type) + " Width("@ + dec_chars(
        lp.width,
    ) + ")\n"@
}

/// The concatenated output lines, one per parsed descriptor.
pub open spec fn spec_lp_ddf_lines(lps: Seq<LineParse>) -> Seq<char>
    decreases lps.len(),
{
    if lps.len() == 0 {
        Seq::empty()
    } else {
        spec_lp_ddf_lines(lps.drop_last()) + spec_lp_ddf_line(lps.last())
    }
}

/// The full companion output text, stated over the mathematical parse of
/// the input companion file.
pub open spec fn spec_lp_ddf_text(
    lps: Seq<LineParse>,
    duplicate_count: nat,
    timestamp: Seq<char>,
    record_count: nat,
) -> Seq<char> {
    spec_ddf_header(duplicate_count, timestamp, record_count) + spec_lp_ddf_lines(lps)
}

/// The payload bytes of the first `total` output records of a job: output
/// `k` carries the payload slice of original record `k` modulo the original
/// record count.
pub open spec fn spec_dup_payloads(buffer: Seq<u8>, rs: nat, r_count: nat, total: nat) -> Seq<u8>
    decreases total,
{
    if total == 0 {
        Seq::empty()
    } else {
        spec_dup_payloads(buffer, rs, r_count, (total - 1) as nat) + spec_record_data(
            buffer,
            rs,
            (((total - 1) as int) % (r_count as int)) as nat,
        )
    }
}

/// Descriptors that match the mathematical parse have the same width sum,
/// record size and record count.
proof fn lemma_parse_bridge(vars: Seq<MddVariable>, lps: Seq<LineParse>, buffer_len: nat)
    requires
        vars_match_parse(vars, lps),
    ensures
        spec_sum_widths(vars) == lp_width_sum(lps),
        spec_record_size(buffer_len, vars) == spec_parsed_record_size(buffer_len, lps),
        spec_num_records(buffer_len, vars) == spec_parsed_num_records(buffer_len, lps),
    decreases vars.len(),
{
    if vars.len() > 0 {
        assert(vars_match_parse(vars.drop_last(), lps.drop_last())) by {
            assert forall|i: int| 0 <= i < vars.len() - 1 implies #[trigger] var_line(
                vars.drop_last()[i],
            ) == lps.drop_last()[i] by {
                assert(var_line(vars[i]) == lps[i]);
            }
        }
        lemma_parse_bridge(vars.drop_last(), lps.drop_last(), buffer_len);
        assert(var_line(vars.last()) == lps.last());
    }
}

/// Descriptors that match the mathematical parse produce the same
/// companion output lines.
proof fn lemma_ddf_lines_bridge(vars: Seq<MddVariable>, lps: Seq<LineParse>)
    requires
        vars_match_parse(vars, lps),
    ensures
        spec_ddf_lines(vars) == spec_lp_ddf_lines(lps),
    decreases vars.len(),
{
    if vars.len() > 0 {
        assert(vars_match_parse(vars.drop_last(), lps.drop_last())) by {
            assert forall|i: int| 0 <= i < vars.len() - 1 implies #[trigger] var_line(
                vars.drop_last()[i],
            ) == lps.drop_last()[i] by {
                assert(var_line(vars[i]) == lps[i]);
            }
        }
        lemma_ddf_lines_bridge(vars.drop_last(), lps.drop_last());
        assert(var_line(vars.last()) == lps.last());
        assert(spec_ddf_line(vars.last()) == spec_lp_ddf_line(lps.last()));
    }
}

/// The concatenated payloads of duplicated records equal the payload slices
/// of the originals, repeated in duplication order.
proof fn lemma_out_payloads(
    buffer: Seq<u8>,
    vars: Seq<MddVariable>,
    records: Seq<MddRecord>,
    out: Seq<MddRecord>,
    t: int,
)
    requires
        records.len() > 0,
        forall|i: int|
            0 <= i < records.len() ==> record_matches(#[trigger] records[i], buffer, vars, i as nat),
        forall|k: int|
            0 <= k < out.len() ==> dup_record_matches(
                #[trigger] out[k],
                records[k % records.len() as int],
                (k / records.len() as int) as nat,
                (k % records.len() as int) as nat,
                k as nat,
            ),
        0 <= t <= out.len(),
    ensures
        concat_payloads(out.take(t)) == spec_dup_payloads(
            buffer,
            spec_record_size(buffer.len() as nat, vars),
            records.len() as nat,
            t as nat,
        ),
    decreases t,
{
    if t == 0 {
        assert(out.take(0) =~= Seq::<MddRecord>::empty());
    } else {
        lemma_out_payloads(buffer, vars, records, out, t - 1);
        assert(out.take(t).drop_last() =~= out.take(t - 1));
        assert(out.take(t).last() == out[t - 1]);
        let len = records.len() as int;
        let p = (t - 1) % len;
        assert(0 <= p < len) by {
            vstd::arithmetic::div_mod::lemma_mod_bound(t - 1, len);
        }
        assert(out[t - 1].data@ == records[p].data@);
        assert(records[p].data@ == spec_record_data(
            buffer,
            spec_record_size(buffer.len() as nat, vars),
            p as nat,
        ));
    }
}

/// Lifecycle of one duplication job.  The states are strictly sequential:
/// none is re-entered, and failure is terminal and reachable from every
/// non-terminal state.  The reporting state is passed through whether or
/// not a report was requested.
#[derive(Clone, Copy, Debug, PartialEq, Eq, Structural)]
pub enum JobState {
    Validating,
    Loading,
    Duplicating,
    Writing,
    Packaging,
    Reporting,
    Complete,
    Failed,
}

/// Position of a state in the job's forward order; the two terminal states
/// share the last rank.
pub open spec fn job_rank(s: JobState) -> int {
    match s {
        JobState::Validating => 0,
        JobState::Loading => 1,
        JobState::Duplicating => 2,
        JobState::Writing => 3,
        JobState::Packaging => 4,
        JobState::Reporting => 5,
        JobState::Complete => 6,
        JobState::Failed => 6,
    }
}

/// Whether a job in this state is finished.
pub open spec fn job_terminal(s: JobState) -> bool {
    s is Complete || s is Failed
}

/// Advances a job one stage: to the next state in order when the stage
/// succeeded, to the failed terminal state when it did not.  A finished job
/// stays where it is, so no state is ever re-entered.
pub fn job_advance(s: JobState, ok: bool) -> (r: JobState)
    ensures
        job_terminal(s) ==> r == s,
        !job_terminal(s) && !ok ==> r == JobState::Failed,
        !job_terminal(s) && ok ==> job_rank(r) == job_rank(s) + 1 && !(r is Failed),
{
    if !ok {
        return match s {
            JobState::Complete => JobState::Complete,
            JobState::Failed => JobState::Failed,
            _ => JobState::Failed,
        };
    }
    match s {
        JobState::Validating => JobState::Loading,
        JobState::Loading => JobState::Duplicating,
        JobState::Duplicating => JobState::Writing,
        JobState::Writing => JobState::Packaging,
        JobState::Packaging => JobState::Reporting,
        JobState::Reporting => JobState::Complete,
        JobState::Complete => JobState::Complete,
        JobState::Failed => JobState::Failed,
    }
}

/// Output of one duplication job, ready for the caller to persist: the two
/// output files, the job's base name, the record counts, and the progress
/// milestones in the order they arose.
pub struct JobOutput {
    pub base_name: String,
    pub mdd_bytes: Vec<u8>,
    pub ddf_text: String,
    pub original_records: u32,
    pub final_records: u32,
    pub progress: Vec<DuplicationProgress>,
}

/// The base name of a job's output directory and files: the duplication
/// factor and a timestamp.
pub open spec fn spec_output_base_name(duplicate_count: nat, timestamp: Seq<char>) -> Seq<char> {
    "duplicated_"@ + dec_chars(duplicate_count) + "x_"@ + timestamp
}

/// Builds the base name of a job's output directory and files.
pub fn output_base_name(duplicate_count: u32, timestamp: &str) -> (r: String)
    ensures
        r@ == spec_output_base_name(duplicate_count as nat, timestamp@),
{
    let mut r = String::from_str("duplicated_");
    let dc = u64_to_dec_string(duplicate_count as u64);
    r.append(dc.as_str());
    r.append("x_");
    r.append(timestamp);
    r
}

fn progress_snapshot(step: &str, percent: u32, processed: u32, total: u32) -> (r:
    DuplicationProgress)
    ensures
        r.step@ == step@,
        r.progress_percent == percent,
        r.records_processed == processed,
        r.total_records == total,
{
    DuplicationProgress {
        step: String::from_str(step),
        progress_percent: percent,
        records_processed: processed,
        total_records: total,
    }
}

/// Runs one duplication job over the contents of the dataset pair.
/// Validation fails fast: a missing dataset file, then a missing companion
/// file, then a dataset under four bytes, each before any parsing or
/// duplication work, with no progress produced.  On success the output
/// holds exactly `duplicate_count` times the parsed record count, the two
/// output files pinned byte for byte, and five progress milestones with
/// non-decreasing percentages.
pub fn run_duplication(
    mdd_content: &Option<Vec<u8>>,
    ddf_content: &Option<String>,
    duplicate_count: u32,
    timestamp: &str,
) -> (r: DuplicateMddResult<JobOutput>)
    requires
        duplicate_count * 10000 <= u32::MAX,
    ensures
        r is Ok <==> (mdd_content matches Some(m) && m@.len() >= 4 && ddf_content is Some),
        mdd_content is None ==> (r matches Err(e) && e matches DuplicateMddError::FileNotFound(s)
            && s@ == "MDD file not found"@),
        (mdd_content is Some && ddf_content is None) ==> (r matches Err(e)
            && e matches DuplicateMddError::FileNotFound(s) && s@ == "DDF file not found"@),
        (mdd_content matches Some(m) && ddf_content is Some && m@.len() < 4) ==> (r matches Err(e)
            && e matches DuplicateMddError::InvalidFileFormat(s) && s@
            == "File too small to be valid MDD"@),
        mdd_content matches Some(m) ==> ddf_content matches Some(d) ==> r matches Ok(out) ==> {
            let lps = spec_parse_ddf(d@);
            let rs = spec_parsed_record_size(m@.len() as nat, lps);
            let rcount = spec_parsed_num_records(m@.len() as nat, lps);
            let total = (duplicate_count as nat) * rcount;
            &&& out.original_records == rcount
            &&& out.final_records == total
            &&& out.base_name@ == spec_output_base_name(duplicate_count as nat, timestamp@)
            &&& out.ddf_text@ == spec_lp_ddf_text(lps, duplicate_count as nat, timestamp@, total)
            &&& out.mdd_bytes@ == mdd_magic() + dec_bytes(total) + seq![10u8] + spec_dup_payloads(
                m@,
                rs,
                rcount,
                total,
            )
            &&& out.progress@.len() == 5
            &&& out.progress@[0].progress_percent == 0 && out.progress@[0].records_processed == 0
                && out.progress@[0].total_records == 0 && out.progress@[0].step@
                == "Initializing duplication process"@
            &&& out.progress@[1].progress_percent == 15 && out.progress@[1].records_processed == 0
                && out.progress@[1].total_records == rcount && out.progress@[1].step@
                == "Loaded records from original files"@
            &&& out.progress@[2].progress_percent == 60 && out.progress@[2].records_processed
                == total && out.progress@[2].total_records == total && out.progress@[2].step@
                == "Generated duplicated records"@
            &&& out.progress@[3].progress_percent == 85 && out.progress@[3].records_processed
                == total && out.progress@[3].total_records == total && out.progress@[3].step@
                == "Output files created"@
            &&& out.progress@[4].progress_percent == 100 && out.progress@[4].records_processed
                == total && out.progress@[4].total_records == total && out.progress@[4].step@
                == "Process completed successfully"@
            &&& forall|a: int, b: int|
                0 <= a <= b < 5 ==> #[trigger] out.progress@[a].progress_percent
                    <= #[trigger] out.progress@[b].progress_percent
        },
{
    let mdd = match mdd_content {
        Some(m) => m,
        None => {
            return Err(DuplicateMddError::FileNotFound(String::from_str("MDD file not found")));
        },
    };
    let ddf = match ddf_content {
        Some(d) => d,
        None => {
            return Err(DuplicateMddError::FileNotFound(String::from_str("DDF file not found")));
        },
    };
    match MddFileInfo::parse_mdd_file(mdd) {
        Ok(_) => {},
        Err(e) => {
            return Err(e);
        },
    }
    let mut progress: Vec<DuplicationProgress> = Vec::new();
    progress.push(progress_snapshot("Initializing duplication process", 0, 0, 0));
    let vars = MddFileInfo::parse_ddf_file(ddf.as_str());
    let records = load_mdd_records(mdd, &vars);
    proof {
        lemma_parse_bridge(vars@, spec_parse_ddf(ddf@), mdd@.len() as nat);
        assert(records@.len() <= 10000);
    }
    let original_records = records.len() as u32;
    progress.push(progress_snapshot("Loaded records from original files", 15, 0, original_records));
    proof {
        assert(duplicate_count * records@.len() <= duplicate_count * 10000) by (nonlinear_arith)
            requires
                0 <= duplicate_count,
                records@.len() <= 10000,
        ;
        assert(fields_fit(records@, duplicate_count as int, records@.len() as int)) by {
            assert forall|i: int, j: int|
                0 <= i < records@.len() && 0 <= j < records@[i].variables@.len() implies match fv(
                (#[trigger] records@[i].variables@[j]).1,
            ) {
                FieldV::Number(v) => v + duplicate_count * 1000000 + records@.len() <= i64::MAX,
                FieldV::Integer(v) => v + duplicate_count * 1000000 + records@.len() <= i32::MAX,
                _ => true,
            } by {
                assert(record_matches(records@[i], mdd@, vars@, i as nat));
                assert(fv(records@[i].variables@[j].1) == crate::parser::spec_synth(
                    vars@[j].var_type,
                    i as nat,
                ));
            }
        }
    }
    let duplicated = generate_duplicated_records(&records, duplicate_count);
    let final_records = duplicated.len() as u32;
    progress.push(
        progress_snapshot("Generated duplicated records", 60, final_records, final_records),
    );
    let mdd_bytes = build_mdd_bytes(&duplicated);
    let ddf_text = build_ddf_text(&vars, duplicate_count, timestamp, duplicated.len() as u64);
    let base_name = output_base_name(duplicate_count, timestamp);
    progress.push(progress_snapshot("Output files created", 85, final_records, final_records));
    progress.push(
        progress_snapshot("Process completed successfully", 100, final_records, final_records),
    );
    proof {
        lemma_ddf_lines_bridge(vars@, spec_parse_ddf(ddf@));
        if records@.len() > 0 {
            lemma_out_payloads(mdd@, vars@, records@, duplicated@, duplicated@.len() as int);
            assert(duplicated@.take(duplicated@.len() as int) =~= duplicated@);
        } else {
            assert(duplicated@.len() == duplicate_count * 0);
            assert(duplicated@.take(0) =~= Seq::<MddRecord>::empty());
            assert(concat_payloads(duplicated@) == Seq::<u8>::empty());
        }
    }
    Ok(
        JobOutput {
            base_name,
            mdd_bytes,
            ddf_text,
            original_records,
            final_records,
            progress,
        },
    )
}

/// Relies on `chrono::Utc::now` and its formatting: the moment of the call
/// as an RFC 3339 timestamp and as a compact `year month day underscore
/// hour minute second` tag.  The result depends on the clock, so all that
/// is promised is shape: neither format string contains a newline and
/// every rendered field is digits, signs and punctuation, so both strings
/// are newline-free and the companion file's comment block they land in
/// stays line-shaped.  The pipeline takes timestamps as arguments and is
/// verified for every value.
#[verifier::external_body]
pub fn current_timestamps() -> (r: (String, String))
    ensures
        forall|i: int| 0 <= i < r.0@.len() ==> #[trigger] r.0@[i] != '\n',
        forall|i: int| 0 <= i < r.1@.len() ==> #[trigger] r.1@[i] != '\n',
{
    let now = chrono::Utc::now();
    (now.to_rfc3339(), format!("{}", now.format("%Y%m%d_%H%M%S")))
}

/// Runs one duplication job stamped with the current clock.  The timestamp
/// lands only inside the generated text, so everything else the pipeline
/// guarantees holds regardless of it: validation order, when the job
/// succeeds, and the record counts.
pub fn run_duplication_now(
    mdd_content: &Option<Vec<u8>>,
    ddf_content: &Option<String>,
    duplicate_count: u32,
) -> (r: DuplicateMddResult<JobOutput>)
    requires
        duplicate_count * 10000 <= u32::MAX,
    ensures
        r is Ok <==> (mdd_content matches Some(m) && m@.len() >= 4 && ddf_content is Some),
        mdd_content is None ==> (r matches Err(e) && e matches DuplicateMddError::FileNotFound(s)
            && s@ == "MDD file not found"@),
        (mdd_content is Some && ddf_content is None) ==> (r matches Err(e)
            && e matches DuplicateMddError::FileNotFound(s) && s@ == "DDF file not found"@),
        mdd_content matches Some(m) ==> ddf_content matches Some(d) ==> r matches Ok(out) ==> {
            let rcount = spec_parsed_num_records(m@.len() as nat, spec_parse_ddf(d@));
            &&& out.original_records == rcount
            &&& out.final_records == (duplicate_count as nat) * rcount
            &&& out.progress@.len() == 5
        },
{
    let (_rfc, compact) = current_timestamps();
    run_duplication(mdd_content, ddf_content, duplicate_count, compact.as_str())
}

/// One duplication job's configuration: the input pair, the output
/// directory, the duplication factor and the processing options.
pub struct MddProcessor {
    pub input_mdd_path: String,
    pub input_ddf_path: String,
    pub output_directory: String,
    pub duplicate_count: u32,
    pub options: DuplicationOptions,
}

impl MddProcessor {
    /// Configures one job.  Progress snapshots are returned as job output
    /// rather than pushed through a process-wide callback.
    pub fn new(
        mdd_path: String,
        ddf_path: String,
        output_dir: String,
        duplicate_count: u32,
        options: DuplicationOptions,
    ) -> (r: MddProcessor)
        ensures
            r.input_mdd_path@ == mdd_path@,
            r.input_ddf_path@ == ddf_path@,
            r.output_directory@ == output_dir@,
            r.duplicate_count == duplicate_count,
            r.options == options,
    {
        MddProcessor {
            input_mdd_path: mdd_path,
            input_ddf_path: ddf_path,
            output_directory: output_dir,
            duplicate_count,
            options,
        }
    }

    /// Runs this job over the contents of its input pair: the result meets
    /// the duplication pipeline's full contract for this job's duplication
    /// factor.
    pub fn process_duplication(
        &self,
        mdd_content: &Option<Vec<u8>>,
        ddf_content: &Option<String>,
        timestamp: &str,
    ) -> (r: DuplicateMddResult<JobOutput>)
        requires
            self.duplicate_count * 10000 <= u32::MAX,
        ensures
            call_ensures(
                run_duplication,
                (mdd_content, ddf_content, self.duplicate_count, timestamp),
                r,
            ),
    {
        run_duplication(mdd_content, ddf_content, self.duplicate_count, timestamp)
    }
}

/// Whether a job's output files fit the archive format: the base name
/// leaves room for the four-character extensions within the format's
/// name-length limit, and each file stays within its size limit.
pub open spec fn packable_job(output: JobOutput, report: Option<String>) -> bool {
    &&& output.base_name@.len() + 4 <= 16383
    &&& output.mdd_bytes@.len() <= 0x7FFF_FFFF
    &&& vstd::utf8::encode_utf8(output.ddf_text@).len() <= 0x7FFF_FFFF
    &&& (report matches Some(t) ==> vstd::utf8::encode_utf8(t@).len() <= 0x7FFF_FFFF)
}

/// Packages a job's output files into one archive: the binary dataset file,
/// the companion text file, and, when a verification report was requested,
/// one report text file — exactly two or three entries.  Packaging succeeds
/// whenever the files fit the archive format (the three entry names are
/// distinct by construction), and on success the archive extracts back to
/// those files byte for byte.
pub fn package_job(output: &JobOutput, report: &Option<String>) -> (r: DuplicateMddResult<Vec<u8>>)
    ensures
        r matches Ok(b) ==> {
            let es = crate::archive::unzip_of(b@);
            &&& es matches Some(entries)
            &&& entries.len() == if report is Some {
                3int
            } else {
                2int
            }
            &&& entries[0].0 == output.base_name@ + ".mdd"@ && entries[0].1 == output.mdd_bytes@
            &&& entries[1].0 == output.base_name@ + ".ddf"@ && entries[1].1
                == vstd::utf8::encode_utf8(output.ddf_text@)
            &&& (report matches Some(t) ==> entries[2].0 == "performance_report.txt"@
                && entries[2].1 == vstd::utf8::encode_utf8(t@))
        },
        packable_job(*output, *report) ==> r is Ok,
{
    let mut entries: Vec<(String, Vec<u8>)> = Vec::new();
    let mut mdd_name = String::from_str(output.base_name.as_str());
    mdd_name.append(".mdd");
    entries.push((mdd_name, crate::engine::copy_bytes(&output.mdd_bytes)));
    let mut ddf_name = String::from_str(output.base_name.as_str());
    ddf_name.append(".ddf");
    entries.push((ddf_name, output.ddf_text.as_str().as_bytes_vec()));
    match report {
        Some(t) => {
            entries.push((String::from_str("performance_report.txt"), t.as_str().as_bytes_vec()));
        },
        None => {},
    }
    proof {
        if report is Some {
            assert(crate::archive::entries_view(entries@).len() == 3);
        } else {
            assert(crate::archive::entries_view(entries@).len() == 2);
        }
        if packable_job(*output, *report) {
            reveal_strlit(".mdd");
            reveal_strlit(".ddf");
            reveal_strlit("performance_report.txt");
            let base = output.base_name@;
            let n1 = base + ".mdd"@;
            let n2 = base + ".ddf"@;
            let n3 = "performance_report.txt"@;
            assert(n1[base.len() as int + 1] == 'm' && n2[base.len() as int + 1] == 'd');
            assert(n1 != n2);
            assert(n1.last() == 'd' && n2.last() == 'f' && n3.last() == 't');
            assert(n1 != n3 && n2 != n3) by {
                if n1 == n3 {
                    assert(n1.last() == n3.last());
                }
                if n2 == n3 {
                    assert(n2.last() == n3.last());
                }
            }
            assert(crate::archive::packable(crate::archive::entries_view(entries@)));
        }
    }
    crate::archive::package_entries(&entries)
}

/// Whole-run throughput in records per second; a run under one second
/// counts as one second.
pub open spec fn spec_report_rps(final_records: nat, processing_seconds: nat) -> nat {
    if processing_seconds > 0 {
        final_records / processing_seconds
    } else {
        final_records
    }
}

/// Output size in whole megabytes.
pub open spec fn spec_report_mb(output_bytes: nat) -> nat {
    output_bytes / 1048576
}

/// Memory efficiency in records per megabyte of output; an output under
/// one megabyte counts as one.
pub open spec fn spec_report_rpmb(final_records: nat, output_bytes: nat) -> nat {
    if spec_report_mb(output_bytes) > 0 {
        final_records / spec_report_mb(output_bytes)
    } else {
        final_records
    }
}

/// The plain-text performance summary written alongside a job's archive:
/// timestamp, record counts, duplication factor, elapsed time, throughput,
/// output size, memory efficiency, and the input and output paths.
pub open spec fn spec_performance_report(
    timestamp: Seq<char>,
    original_records: nat,
    final_records: nat,
    duplicate_count: nat,
    processing_seconds: nat,
    output_bytes: nat,
    mdd_path: Seq<char>,
    ddf_path: Seq<char>,
    zip_path: Seq<char>,
) -> Seq<char> {
    "DUPLICATION PERFORMANCE REPORT\n===============================\nGenerated: "@ + timestamp
        + "\n\nPROCESSING DETAILS:\n- Original records: "@ + dec_chars(original_records)
        + "\n- Final records: "@ + dec_chars(final_records) + "\n- Duplication factor: "@
        + dec_chars(duplicate_count) + "x\n- Processing time: "@ + dec_chars(processing_seconds)
        + "s\n- Records per second: "@ + dec_chars(
        spec_report_rps(final_records, processing_seconds),
    ) + "\n- Output file size: "@ + dec_chars(spec_report_mb(output_bytes))
        + " MB\n- Memory efficiency: "@ + dec_chars(
        spec_report_rpmb(final_records, output_bytes),
    ) + " records/MB\n\nFILES:\n- MDD input: "@ + mdd_path + "\n- DDF input: "@ + ddf_path
        + "\n- Output: "@ + zip_path + "\n"@
}

/// Builds the performance summary from the counts and timings the caller
/// measured.
pub fn build_performance_report(
    timestamp: &str,
    original_records: u32,
    final_records: u32,
    duplicate_count: u32,
    processing_seconds: u64,
    output_bytes: u64,
    mdd_path: &str,
    ddf_path: &str,
    zip_path: &str,
) -> (r: String)
    ensures
        r@ == spec_performance_report(
            timestamp@,
            original_records as nat,
            final_records as nat,
            duplicate_count as nat,
            processing_seconds as nat,
            output_bytes as nat,
            mdd_path@,
            ddf_path@,
            zip_path@,
        ),
{
    let mut r = String::from_str(
        "DUPLICATION PERFORMANCE REPORT\n===============================\nGenerated: ",
    );
    r.append(timestamp);
    r.append("\n\nPROCESSING DETAILS:\n- Original records: ");
    let a = u64_to_dec_string(original_records as u64);
    r.append(a.as_str());
    r.append("\n- Final records: ");
    let b = u64_to_dec_string(final_records as u64);
    r.append(b.as_str());
    r.append("\n- Duplication factor: ");
    let c = u64_to_dec_string(duplicate_count as u64);
    r.append(c.as_str());
    r.append("x\n- Processing time: ");
    let d = u64_to_dec_string(processing_seconds);
    r.append(d.as_str());
    r.append("s\n- Records per second: ");
    let rps: u64 = if processing_seconds > 0 {
        final_records as u64 / processing_seconds
    } else {
        final_records as u64
    };
    let e = u64_to_dec_string(rps);
    r.append(e.as_str());
    r.append("\n- Output file size: ");
    let mb: u64 = output_bytes / 1048576;
    let f = u64_to_dec_string(mb);
    r.append(f.as_str());
    r.append(" MB\n- Memory efficiency: ");
    let rpmb: u64 = if mb > 0 {
        final_records as u64 / mb
    } else {
        final_records as u64
    };
    let g = u64_to_dec_string(rpmb);
    r.append(g.as_str());
    r.append(" records/MB\n\nFILES:\n- MDD input: ");
    r.append(mdd_path);
    r.append("\n- DDF input: ");
    r.append(ddf_path);
    r.append("\n- Output: ");
    r.append(zip_path);
    r.append("\n");
    r
}

/// Estimates the seconds a job has left, from the seconds elapsed so far
/// and the percentage already complete: the elapsed time scaled to the full
/// run, minus the elapsed time; zero when nothing is complete yet or the
/// percentage is already full.
pub fn estimate_remaining_seconds(elapsed_seconds: u64, progress_percent: u32) -> (r: u64)
    ensures
        progress_percent == 0 ==> r == 0,
        progress_percent > 0 ==> {
            let total = elapsed_seconds * 100 / (progress_percent as int);
            r == if total > elapsed_seconds {
                if total - elapsed_seconds > u64::MAX {
                    u64::MAX as int
                } else {
                    total - elapsed_seconds
                }
            } else {
                0int
            }
        },
{
    if progress_percent == 0 {
        return 0;
    }
    let total: u128 = (elapsed_seconds as u128) * 100 / (progress_percent as u128);
    if total > elapsed_seconds as u128 {
        let remaining = total - elapsed_seconds as u128;
        if remaining > u64::MAX as u128 {
            u64::MAX
        } else {
            remaining as u64
        }
    } else {
        0
    }
}

/// Estimated resident bytes of a record set: the mean in-memory footprint
/// of a bounded sample of records, scaled to the whole set, capped at the
/// largest representable size.  A record's footprint counts its payload
/// bytes plus a fixed overhead of fifty bytes per overlay field.
pub open spec fn spec_memory_sample_sum(records: Seq<MddRecord>, n: int) -> int
    decreases n,
{
    if n <= 0 {
        0
    } else {
        spec_memory_sample_sum(records, n - 1) + records[n - 1].data@.len() + 50 * records[n
            - 1].variables@.len()
    }
}

/// Estimates the resident bytes a record set occupies.
pub fn estimate_memory_bytes(records: &Vec<MddRecord>) -> (r: u64)
    ensures
        records@.len() == 0 ==> r == 0,
        records@.len() > 0 ==> {
            let sample = if records@.len() < 100 {
                records@.len() as int
            } else {
                100int
            };
            let avg = spec_memory_sample_sum(records@, sample) / sample;
            let total = avg * records@.len();
            r == if total > u64::MAX {
                u64::MAX as int
            } else {
                total
            }
        },
{
    if records.len() == 0 {
        return 0;
    }
    let sample: usize = if records.len() < 100 {
        records.len()
    } else {
        100
    };
    let mut sum: u128 = 0;
    let mut i: usize = 0;
    while i < sample
        invariant
            0 < sample <= records@.len(),
            sample <= 100,
            i <= sample,
            sum == spec_memory_sample_sum(records@, i as int),
            sum <= i * 0x2000_0000_0000_0000_0000,
        decreases sample - i,
    {
        let data_len = records[i].data.len() as u128;
        let field_cost = 50 * (records[i].variables.len() as u128);
        sum = sum + data_len + field_cost;
        i = i + 1;
    }
    let avg: u128 = sum / (sample as u128);
    if avg > u64::MAX as u128 {
        proof {
            assert(avg * records@.len() >= avg) by (nonlinear_arith)
                requires
                    avg >= 0,
                    records@.len() >= 1,
            ;
        }
        return u64::MAX;
    }
    proof {
        assert(avg * records@.len() <= u128::MAX) by (nonlinear_arith)
            requires
                0 <= avg <= u64::MAX,
                0 <= records@.len() <= usize::MAX,
        ;
    }
    let total: u128 = avg * (records.len() as u128);
    if total > u64::MAX as u128 {
        u64::MAX
    } else {
        total as u64
    }
}

} // verus!
