//! Pre-flight validation and resource estimation.  A dataset is valid only
//! when both files of its pair exist; a missing companion file is a
//! validation failure, reported before any parsing work.  The estimates are
//! integer arithmetic over file sizes and record counts, saturating at the
//! largest representable value instead of overflowing.

use vstd::prelude::*;
use crate::model::{
    DuplicateMddError, DuplicateMddResult, FileValidationResult, MddFileInfo,
};
use crate::paths::{base_name_of, derive_ddf_path, spec_base_name, spec_ddf_path};
use vstd::string::*;

verus! {

/// Caps a value at the largest `u64`.
pub open spec fn cap_u64(x: int) -> int {
    if x > u64::MAX {
        u64::MAX as int
    } else {
        x
    }
}

/// Rejects a job whose estimated space need exceeds the space available.
pub fn check_workspace_space(available_mb: u64, required_mb: u64) -> (r: DuplicateMddResult<()>)
    ensures
        r is Ok <==> available_mb >= required_mb,
        r matches Err(e) ==> e matches DuplicateMddError::InsufficientDiskSpace {
            needed,
            available,
        } && needed == required_mb && available == available_mb,
{
    if available_mb >= required_mb {
        Ok(())
    } else {
        Err(
            DuplicateMddError::InsufficientDiskSpace {
                needed: required_mb,
                available: available_mb,
            },
        )
    }
}

/// Validates a dataset file pair from what the caller found on disk: the
/// dataset path, whether each of the two files exists, and their sizes.
/// The companion path is derived from the dataset path.  A missing dataset
/// file fails first; then a missing companion file; otherwise the pair is
/// valid and summarized.
pub fn validate_mdd_file(mdd_path: &str, mdd_exists: bool, mdd_size: u64, ddf_exists: bool,
    ddf_size: u64) -> (r: FileValidationResult)
    ensures
        r.is_valid <==> (mdd_exists && ddf_exists),
        r.mdd_exists == mdd_exists,
        r.ddf_exists == (mdd_exists && ddf_exists),
        r.mdd_path@ == mdd_path@,
        !mdd_exists ==> r.ddf_path@ == Seq::<char>::empty() && (r.error_message matches Some(m)
            && m@ == "MDD file not found"@) && r.file_info is None,
        mdd_exists ==> r.ddf_path@ == spec_ddf_path(mdd_path@),
        (mdd_exists && !ddf_exists) ==> (r.error_message matches Some(m) && m@
            == "Corresponding DDF file not found"@) && r.file_info is None,
        (mdd_exists && ddf_exists) ==> r.error_message is None && (r.file_info matches Some(info)
            && info.mdd_path@ == mdd_path@ && info.ddf_path@ == spec_ddf_path(mdd_path@)
            && info.base_name@ == spec_base_name(mdd_path@) && info.mdd_size == mdd_size
            && info.ddf_size == ddf_size && info.record_count is None && info.is_valid),
{
    if !mdd_exists {
        return FileValidationResult {
            is_valid: false,
            mdd_exists: false,
            ddf_exists: false,
            mdd_path: String::from_str(mdd_path),
            ddf_path: String::new(),
            error_message: Some(String::from_str("MDD file not found")),
            file_info: None,
        };
    }
    let ddf_path = derive_ddf_path(mdd_path);
    if !ddf_exists {
        return FileValidationResult {
            is_valid: false,
            mdd_exists: true,
            ddf_exists: false,
            mdd_path: String::from_str(mdd_path),
            ddf_path,
            error_message: Some(String::from_str("Corresponding DDF file not found")),
            file_info: None,
        };
    }
    let file_info = MddFileInfo {
        mdd_path: String::from_str(mdd_path),
        ddf_path: String::from_str(ddf_path.as_str()),
        base_name: base_name_of(mdd_path),
        mdd_size,
        ddf_size,
        record_count: None,
        is_valid: true,
    };
    FileValidationResult {
        is_valid: true,
        mdd_exists: true,
        ddf_exists: true,
        mdd_path: String::from_str(mdd_path),
        ddf_path,
        error_message: None,
        file_info: Some(file_info),
    }
}

impl MddFileInfo {
    /// Summarizes a dataset pair from its paths and sizes, with a record
    /// count estimated from the dataset size.
    pub fn estimate_file_info(mdd_path: &str, ddf_path: &str, mdd_size: u64, ddf_size: u64) -> (r:
        MddFileInfo)
        ensures
            r.mdd_path@ == mdd_path@,
            r.ddf_path@ == ddf_path@,
            r.base_name@ == spec_base_name(mdd_path@),
            r.mdd_size == mdd_size,
            r.ddf_size == ddf_size,
            r.record_count matches Some(c) && c == if mdd_size / 200 > u32::MAX {
                u32::MAX as int
            } else if mdd_size / 200 < 1 {
                1int
            } else {
                (mdd_size / 200) as int
            },
            r.is_valid,
    {
        let record_count = Self::estimate_record_count(mdd_size);
        MddFileInfo {
            mdd_path: String::from_str(mdd_path),
            ddf_path: String::from_str(ddf_path),
            base_name: base_name_of(mdd_path),
            mdd_size,
            ddf_size,
            record_count: Some(record_count),
            is_valid: true,
        }
    }
}

/// The integrity messages for a dataset pair, in order: existence, then
/// emptiness, then a compatibility verdict from parsing the pair.
pub open spec fn spec_integrity_messages(mdd: Option<Seq<u8>>, ddf: Option<Seq<char>>) -> Seq<
    Seq<char>,
> {
    let missing_mdd: Seq<Seq<char>> = if mdd is None {
        seq!["MDD file not found"@]
    } else {
        Seq::empty()
    };
    let missing_ddf: Seq<Seq<char>> = if ddf is None {
        seq!["DDF file not found"@]
    } else {
        Seq::empty()
    };
    let empty_mdd: Seq<Seq<char>> = if mdd matches Some(m) && m.len() == 0 {
        seq!["MDD file is empty"@]
    } else {
        Seq::empty()
    };
    let empty_ddf: Seq<Seq<char>> = if ddf matches Some(t) && t.len() == 0 {
        seq!["DDF file is empty"@]
    } else {
        Seq::empty()
    };
    let verdict: Seq<Seq<char>> = match mdd {
        Some(m) => if ddf is Some {
            if m.len() >= 4 {
                seq!["Files appear to be compatible"@]
            } else {
                seq!["MDD parsing error: File too small to be valid MDD"@]
            }
        } else {
            seq!["DDF parsing error: file is missing"@]
        },
        None => seq!["MDD parsing error: file is missing"@],
    };
    missing_mdd + missing_ddf + empty_mdd + empty_ddf + verdict
}

/// The character views of a message list.
pub open spec fn msgs_view(v: Seq<String>) -> Seq<Seq<char>> {
    v.map(|i: int, s: String| s@)
}

impl MddFileInfo {
    /// Checks a dataset pair's integrity and reports every finding as a
    /// human-readable message.
    pub fn validate_mdd_integrity(mdd_content: &Option<Vec<u8>>, ddf_content: &Option<String>)
        -> (r: Vec<String>)
        ensures
            msgs_view(r@) == spec_integrity_messages(
                match *mdd_content {
                    Some(ref m) => Some(m@),
                    None => None,
                },
                match *ddf_content {
                    Some(ref t) => Some(t@),
                    None => None,
                },
            ),
    {
        let mut r: Vec<String> = Vec::new();
        if mdd_content.is_none() {
            r.push(String::from_str("MDD file not found"));
        }
        if ddf_content.is_none() {
            r.push(String::from_str("DDF file not found"));
        }
        match mdd_content {
            Some(m) => {
                if m.len() == 0 {
                    r.push(String::from_str("MDD file is empty"));
                }
            },
            None => {},
        }
        match ddf_content {
            Some(t) => {
                if t.as_str().unicode_len() == 0 {
                    r.push(String::from_str("DDF file is empty"));
                }
            },
            None => {},
        }
        match mdd_content {
            Some(m) => {
                match ddf_content {
                    Some(_) => {
                        if m.len() >= 4 {
                            r.push(String::from_str("Files appear to be compatible"));
                        } else {
                            r.push(
                                String::from_str(
                                    "MDD parsing error: File too small to be valid MDD",
                                ),
                            );
                        }
                    },
                    None => {
                        r.push(String::from_str("DDF parsing error: file is missing"));
                    },
                }
            },
            None => {
                r.push(String::from_str("MDD parsing error: file is missing"));
            },
        }
        proof {
            assert(msgs_view(r@) =~= spec_integrity_messages(
                match *mdd_content {
                    Some(ref m) => Some(m@),
                    None => None,
                },
                match *ddf_content {
                    Some(ref t) => Some(t@),
                    None => None,
                },
            ));
        }
        r
    }
}

/// The estimated number of records a resource estimate assumes.
pub open spec fn spec_resource_record_count(record_count: Option<u32>) -> int {
    match record_count {
        Some(r) => r as int,
        None => 1000,
    }
}

/// The estimated bytes per record a resource estimate assumes: the dataset
/// size spread over the records, at least 100 bytes each, or 200 bytes
/// when no record count is usable.
pub open spec fn spec_resource_record_size(mdd_size: int, records: int) -> int {
    if records > 0 {
        let q = mdd_size / records;
        if q < 100 {
            100
        } else {
            q
        }
    } else {
        200
    }
}

/// The estimated total output bytes of a job: the duplicated dataset with a
/// fixed header allowance, the companion file, and a quarter of both as
/// compression working overhead.
pub open spec fn spec_resource_total_bytes(
    mdd_size: int,
    ddf_size: int,
    duplicate_count: int,
    record_count: Option<u32>,
) -> int {
    let records = spec_resource_record_count(record_count);
    let rs = spec_resource_record_size(mdd_size, records);
    let after = records * duplicate_count;
    let em = cap_u64(rs * after + 1024);
    let base = em + ddf_size;
    base + base / 4
}

/// The estimated megabytes of output a job produces.
pub open spec fn spec_resource_size_mb(
    mdd_size: int,
    ddf_size: int,
    duplicate_count: int,
    record_count: Option<u32>,
) -> int {
    cap_u64(spec_resource_total_bytes(mdd_size, ddf_size, duplicate_count, record_count) / 1048576)
}

/// The estimated seconds a job takes: two seconds per output megabyte plus
/// record-processing time, with a fifty-percent surcharge past ten copies,
/// and at least five seconds.
pub open spec fn spec_resource_seconds(
    mdd_size: int,
    ddf_size: int,
    duplicate_count: int,
    record_count: Option<u32>,
) -> int {
    let after = spec_resource_record_count(record_count) * duplicate_count;
    let base = spec_resource_size_mb(mdd_size, ddf_size, duplicate_count, record_count) * 2;
    let rt = if duplicate_count > 10 {
        after * 3 / 20000
    } else {
        after / 10000
    };
    let t = base + rt;
    cap_u64(
        if t < 5 {
            5
        } else {
            t
        },
    )
}

/// Estimates the disk space (in megabytes) and the time (in seconds) a job
/// needs, from the input sizes, the duplication factor, and the estimated
/// record count when one is known.
pub fn estimate_duplication_resources(
    mdd_size: u64,
    ddf_size: u64,
    duplicate_count: u32,
    record_count: Option<u32>,
) -> (r: (u64, u64))
    ensures
        r.0 == spec_resource_size_mb(
            mdd_size as int,
            ddf_size as int,
            duplicate_count as int,
            record_count,
        ),
        r.1 == spec_resource_seconds(
            mdd_size as int,
            ddf_size as int,
            duplicate_count as int,
            record_count,
        ),
{
    let records: u64 = match record_count {
        Some(c) => c as u64,
        None => 1000,
    };
    let rs: u128 = if records > 0 {
        let q = mdd_size / records;
        if q < 100 {
            100
        } else {
            q as u128
        }
    } else {
        200
    };
    proof {
        assert((records as int) * (duplicate_count as int) <= 0x1_0000_0000_0000_0000)
            by (nonlinear_arith)
            requires
                0 <= records <= u32::MAX,
                0 <= duplicate_count <= u32::MAX,
        ;
    }
    let after: u128 = (records as u128) * (duplicate_count as u128);
    proof {
        assert(rs * after + 1024 <= u128::MAX) by (nonlinear_arith)
            requires
                0 <= rs <= u64::MAX,
                0 <= after <= 0x1_0000_0000_0000_0000,
        ;
    }
    let em_raw: u128 = rs * after + 1024;
    let em: u128 = if em_raw > u64::MAX as u128 {
        u64::MAX as u128
    } else {
        em_raw
    };
    let base: u128 = em + ddf_size as u128;
    let total: u128 = base + base / 4;
    let size_mb_raw: u128 = total / 1048576;
    let size_mb: u128 = if size_mb_raw > u64::MAX as u128 {
        u64::MAX as u128
    } else {
        size_mb_raw
    };
    let rt: u128 = if duplicate_count > 10 {
        after * 3 / 20000
    } else {
        after / 10000
    };
    proof {
        assert(rt as int <= 3 * 0x1_0000_0000_0000_0000) by (nonlinear_arith)
            requires
                0 <= after <= 0x1_0000_0000_0000_0000,
                rt as int == (after as int) * 3 / 20000 || rt as int == (after as int) / 10000,
        ;
    }
    let t: u128 = size_mb * 2 + rt;
    let t_capped: u128 = if t < 5 {
        5
    } else {
        t
    };
    let seconds: u128 = if t_capped > u64::MAX as u128 {
        u64::MAX as u128
    } else {
        t_capped
    };
    (size_mb as u64, seconds as u64)
}

} // verus!
