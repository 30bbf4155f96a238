//! Data model of the dataset pair: header, variable descriptors, records,
//! job options and results, and the error taxonomy.

use vstd::prelude::*;

verus! {

/// Declared type of a variable in the companion (DDF) file.
#[derive(Clone, Copy, Debug, PartialEq, Eq, Structural)]
pub enum MddVariableType {
    Text,
    Number,
    Date,
    Boolean,
    Categorical,
    Unknown,
}

/// One variable descriptor from the companion file.  The ordered sequence of
/// descriptors defines the byte layout of one record.
#[derive(Debug)]
pub struct MddVariable {
    pub name: String,
    pub label: String,
    pub var_type: MddVariableType,
    pub position: u32,
    pub width: u32,
}

/// Best-effort header of the binary dataset file.  In the absence of a fully
/// decoded header the attributes hold placeholder values.
#[derive(Debug)]
pub struct MddHeader {
    pub signature: String,
    pub version: String,
    pub creation_date: String,
    pub description: String,
    pub record_count: u32,
    pub variable_count: u32,
}

/// Parsed structure of a binary dataset file.
#[derive(Debug)]
pub struct MddFileStructure {
    pub header: MddHeader,
    pub variables: Vec<MddVariable>,
    pub data_offset: u64,
    pub record_size: u32,
    pub estimated_records: u32,
}

/// Summary information about a dataset file pair.
#[derive(Debug)]
pub struct MddFileInfo {
    pub mdd_path: String,
    pub ddf_path: String,
    pub base_name: String,
    pub mdd_size: u64,
    pub ddf_size: u64,
    pub record_count: Option<u32>,
    pub is_valid: bool,
}

/// A typed field value overlaid on a record.  The synthesis and rewriting
/// rules of this design only ever produce integral numeric values, so the
/// numeric variant carries an `i64` rather than a floating-point number.
#[derive(Debug)]
pub enum MddFieldValue {
    Text(String),
    Number(i64),
    Integer(i32),
    Boolean(bool),
    Null,
}

/// Mathematical value of an `MddFieldValue`.
pub enum FieldV {
    Text(Seq<char>),
    Number(int),
    Integer(int),
    Boolean(bool),
    Null,
}

/// Lifts an executable field value to its mathematical value.
pub open spec fn fv(v: MddFieldValue) -> FieldV {
    match v {
        MddFieldValue::Text(s) => FieldV::Text(s@),
        MddFieldValue::Number(n) => FieldV::Number(n as int),
        MddFieldValue::Integer(n) => FieldV::Integer(n as int),
        MddFieldValue::Boolean(b) => FieldV::Boolean(b),
        MddFieldValue::Null => FieldV::Null,
    }
}

/// One logical record: a sequence number, an opaque byte payload, and an
/// ordered overlay of (variable name, field value) pairs.  The overlay is a
/// logical view used for targeted field rewriting, not a decode of the
/// payload, so its length is independent of the payload's.
#[derive(Debug)]
pub struct MddRecord {
    pub record_id: u32,
    pub data: Vec<u8>,
    pub variables: Vec<(String, MddFieldValue)>,
}

/// Processing options of one duplication job.
#[derive(Clone, Copy, Debug, PartialEq, Eq, Structural)]
pub struct DuplicationOptions {
    pub include_metadata_validation: bool,
    pub generate_verification_report: bool,
    pub auto_open_result_folder: bool,
    pub keep_temp_files: bool,
}

/// Input of one duplication job, as submitted by the caller.
#[derive(Debug)]
pub struct DuplicationRequest {
    pub mdd_file_path: String,
    pub duplicate_count: u32,
    pub workspace_path: String,
    pub options: DuplicationOptions,
}

/// One progress snapshot streamed to the caller during a job.  Timing and
/// throughput are the caller's to measure; the verified core reports the
/// step, the scaled percentage and the record counts.
#[derive(Debug)]
pub struct DuplicationProgress {
    pub step: String,
    pub progress_percent: u32,
    pub records_processed: u32,
    pub total_records: u32,
}

/// Terminal result of one duplication job.
#[derive(Debug)]
pub struct DuplicationResult {
    pub success: bool,
    pub output_file_path: String,
    pub original_records: u32,
    pub final_records: u32,
    pub processing_time_seconds: u64,
    pub output_file_size_bytes: u64,
    pub error_message: Option<String>,
}

/// Outcome of validating a dataset file pair before a job starts.
#[derive(Debug)]
pub struct FileValidationResult {
    pub is_valid: bool,
    pub mdd_exists: bool,
    pub ddf_exists: bool,
    pub mdd_path: String,
    pub ddf_path: String,
    pub error_message: Option<String>,
    pub file_info: Option<MddFileInfo>,
}

/// Error taxonomy of the duplication pipeline.  I/O and archive failures are
/// carried as messages supplied by the caller or by the archive wrappers.
#[derive(Debug)]
pub enum DuplicateMddError {
    FileNotFound(String),
    InvalidFileFormat(String),
    InsufficientDiskSpace { needed: u64, available: u64 },
    IoError(String),
    ArchiveError(String),
    ParseError(String),
    ProcessingError(String),
}

/// Result type of the duplication pipeline.
pub type DuplicateMddResult<T> = Result<T, DuplicateMddError>;

} // verus!
