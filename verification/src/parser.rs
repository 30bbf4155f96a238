//! Parser for the binary dataset file.  The format has no fully specified
//! schema, so the parser validates a minimum length, estimates the
//! per-record byte width from the declared variable widths (falling back to
//! a uniform estimate), slices the raw bytes into a bounded number of opaque
//! record payloads, and synthesizes placeholder field values for each
//! declared variable so the identifier-rewrite step has values to mutate.

use vstd::prelude::*;
use crate::model::{
    DuplicateMddError, DuplicateMddResult, FieldV, MddFieldValue, MddFileInfo, MddFileStructure,
    MddHeader, MddRecord, MddVariable, MddVariableType, fv,
};
use crate::text::{dec_chars, u64_to_dec_string};
use vstd::arithmetic::div_mod::lemma_fundamental_div_mod;
use vstd::slice::{slice_subrange, slice_to_vec};
use vstd::string::*;

verus! {

/// Sum of the declared variable widths, each counted as at least one byte.
pub open spec fn spec_sum_widths(vars: Seq<MddVariable>) -> int
    decreases vars.len(),
{
    if vars.len() == 0 {
        0
    } else {
        spec_sum_widths(vars.drop_last()) + if vars.last().width < 1 {
            1int
        } else {
            vars.last().width as int
        }
    }
}

proof fn lemma_sum_widths_nonneg(vars: Seq<MddVariable>)
    ensures
        spec_sum_widths(vars) >= vars.len(),
    decreases vars.len(),
{
    if vars.len() > 0 {
        lemma_sum_widths_nonneg(vars.drop_last());
    }
}

/// Estimated bytes per record: the width sum when it is plausible (positive
/// and under 10,000), a uniform estimate from the file length otherwise, and
/// a fixed guess of 200 bytes when no variables are declared.
pub open spec fn spec_record_size(buffer_len: nat, vars: Seq<MddVariable>) -> nat {
    if vars.len() == 0 {
        200
    } else {
        let s = spec_sum_widths(vars);
        if 0 < s && s < 10000 {
            s as nat
        } else {
            buffer_len / 1000
        }
    }
}

/// Number of records the parser slices out of a file: the length divided by
/// the record size, capped at 10,000 to bound memory during parsing.
pub open spec fn spec_num_records(buffer_len: nat, vars: Seq<MddVariable>) -> nat {
    let rs = spec_record_size(buffer_len, vars);
    if rs > 0 {
        if buffer_len / rs < 10000 {
            buffer_len / rs
        } else {
            10000
        }
    } else if buffer_len > 0 {
        1
    } else {
        0
    }
}

/// The opaque payload of record `i`: its slice of the file, truncated at
/// the end of the file.
pub open spec fn spec_record_data(buffer: Seq<u8>, rs: nat, i: nat) -> Seq<u8> {
    let start = i * rs;
    let end = if start + rs <= buffer.len() {
        start + rs
    } else {
        buffer.len() as nat
    };
    buffer.subrange(start as int, end as int)
}

/// The placeholder field value synthesized for a variable of type `t` on
/// record `i`: a positional label for text, the record index for numbers,
/// the index's parity for booleans, and null for everything else.
pub open spec fn spec_synth(t: MddVariableType, i: nat) -> FieldV {
    match t {
        MddVariableType::Text => FieldV::Text("Text_"@ + dec_chars(i)),
        MddVariableType::Number => FieldV::Number(i as int),
        MddVariableType::Boolean => FieldV::Boolean(i % 2 == 0),
        _ => FieldV::Null,
    }
}

/// Pointwise correspondence between a parsed record and the mathematical
/// parse: identifier, payload slice, and synthesized overlay.
pub open spec fn record_matches(
    r: MddRecord,
    buffer: Seq<u8>,
    vars: Seq<MddVariable>,
    i: nat,
) -> bool {
    &&& r.record_id == i
    &&& r.data@ == spec_record_data(buffer, spec_record_size(buffer.len() as nat, vars), i)
    &&& r.variables@.len() == vars.len()
    &&& forall|j: int|
        0 <= j < vars.len() ==> (#[trigger] r.variables@[j]).0@ == vars[j].name@ && fv(
            r.variables@[j].1,
        ) == spec_synth(vars[j].var_type, i)
}

/// Estimates the bytes one record occupies.
pub fn estimate_record_size(buffer_len: usize, variables: &Vec<MddVariable>) -> (r: usize)
    ensures
        r == spec_record_size(buffer_len as nat, variables@),
{
    if variables.len() == 0 {
        return 200;
    }
    let mut acc: u64 = 0;
    let mut i: usize = 0;
    proof {
        assert(variables@.take(0) =~= Seq::<MddVariable>::empty());
    }
    while i < variables.len()
        invariant
            i <= variables@.len(),
            acc <= 10000,
            acc < 10000 ==> acc == spec_sum_widths(variables@.take(i as int)),
            acc == 10000 ==> spec_sum_widths(variables@.take(i as int)) >= 10000,
        decreases variables@.len() - i,
    {
        let w = variables[i].width;
        let ww: u64 = if w < 1 {
            1
        } else {
            w as u64
        };
        proof {
            assert(variables@.take(i + 1).drop_last() =~= variables@.take(i as int));
            assert(variables@.take(i + 1).last() == variables@[i as int]);
            lemma_sum_widths_nonneg(variables@.take(i as int));
        }
        acc = acc + ww;
        if acc >= 10000 {
            acc = 10000;
        }
        i = i + 1;
    }
    proof {
        assert(variables@.take(variables@.len() as int) =~= variables@);
    }
    if acc > 0 && acc < 10000 {
        acc as usize
    } else {
        proof {
            lemma_sum_widths_nonneg(variables@);
        }
        buffer_len / 1000
    }
}

/// Builds one synthesized field value.
fn synth_value(t: MddVariableType, i: usize) -> (v: MddFieldValue)
    requires
        i < 10000,
    ensures
        fv(v) == spec_synth(t, i as nat),
{
    match t {
        MddVariableType::Text => {
            let mut s = String::from_str("Text_");
            let d = u64_to_dec_string(i as u64);
            s.append(d.as_str());
            MddFieldValue::Text(s)
        },
        MddVariableType::Number => MddFieldValue::Number(i as i64),
        MddVariableType::Boolean => MddFieldValue::Boolean(i % 2 == 0),
        _ => MddFieldValue::Null,
    }
}

/// Slices the dataset bytes into records and synthesizes the placeholder
/// overlay for every declared variable of each record.
pub fn load_mdd_records(buffer: &Vec<u8>, variables: &Vec<MddVariable>) -> (recs: Vec<MddRecord>)
    ensures
        recs@.len() == spec_num_records(buffer@.len() as nat, variables@),
        forall|i: int|
            0 <= i < recs@.len() ==> record_matches(#[trigger] recs@[i], buffer@, variables@,
            i as nat),
{
    let blen = buffer.len();
    let rec_size = estimate_record_size(blen, variables);
    let est_count: usize = if rec_size > 0 {
        blen / rec_size
    } else {
        1
    };
    let count: usize = if est_count < 10000 {
        est_count
    } else {
        10000
    };
    let mut recs: Vec<MddRecord> = Vec::new();
    let mut i: usize = 0;
    while i < count
        invariant
            blen == buffer@.len(),
            rec_size == spec_record_size(buffer@.len() as nat, variables@),
            est_count == if rec_size > 0 {
                buffer@.len() as nat / rec_size as nat
            } else {
                1nat
            },
            count == if est_count < 10000 {
                est_count as nat
            } else {
                10000nat
            },
            i <= count,
            rec_size > 0 ==> i * rec_size <= buffer@.len(),
            rec_size == 0 ==> i <= 1,
            rec_size == 0 && i > 0 ==> buffer@.len() > 0,
            recs@.len() == i,
            forall|z: int|
                0 <= z < i ==> record_matches(#[trigger] recs@[z], buffer@, variables@, z as nat),
        decreases count - i,
    {
        proof {
            if rec_size > 0 {
                lemma_fundamental_div_mod(buffer@.len() as int, rec_size as int);
                assert(i * rec_size < buffer@.len()) by (nonlinear_arith)
                    requires
                        0 <= i < est_count,
                        rec_size > 0,
                        buffer@.len() as int == rec_size as int * (est_count as int) + (
                        buffer@.len() as int % rec_size as int),
                        buffer@.len() as int % rec_size as int >= 0,
                ;
            }
            assert(i * rec_size <= buffer@.len());
        }
        let start = i * rec_size;
        if start >= buffer.len() {
            proof {
                assert(rec_size == 0 && buffer@.len() == 0);
                assert(spec_num_records(buffer@.len() as nat, variables@) == 0);
            }
            return recs;
        }
        let end = if rec_size <= buffer.len() - start {
            start + rec_size
        } else {
            buffer.len()
        };
        let data = slice_to_vec(slice_subrange(buffer.as_slice(), start, end));
        let mut overlay: Vec<(String, MddFieldValue)> = Vec::new();
        let mut j: usize = 0;
        while j < variables.len()
            invariant
                i < 10000,
                j <= variables@.len(),
                overlay@.len() == j,
                forall|z: int|
                    0 <= z < j ==> (#[trigger] overlay@[z]).0@ == variables@[z].name@ && fv(
                        overlay@[z].1,
                    ) == spec_synth(variables@[z].var_type, i as nat),
            decreases variables@.len() - j,
        {
            let name = String::from_str(variables[j].name.as_str());
            let value = synth_value(variables[j].var_type, i);
            overlay.push((name, value));
            j = j + 1;
        }
        let rec = MddRecord { record_id: i as u32, data, variables: overlay };
        proof {
            assert(record_matches(rec, buffer@, variables@, i as nat));
        }
        recs.push(rec);
        proof {
            if rec_size > 0 {
                lemma_fundamental_div_mod(buffer@.len() as int, rec_size as int);
                assert((i + 1) * rec_size <= buffer@.len()) by (nonlinear_arith)
                    requires
                        0 <= i,
                        i + 1 <= est_count,
                        rec_size > 0,
                        buffer@.len() as int == rec_size as int * (est_count as int) + (
                        buffer@.len() as int % rec_size as int),
                        buffer@.len() as int % rec_size as int >= 0,
                ;
            }
        }
        i = i + 1;
    }
    proof {
        if rec_size == 0 {
            assert(count == 1);
            assert(buffer@.len() > 0 ==> spec_num_records(buffer@.len() as nat, variables@) == 1);
        }
    }
    recs
}

impl MddFileInfo {
    /// Validates the minimum length of a dataset file and returns its
    /// best-effort structure: files of four bytes or more are minimally
    /// valid, shorter ones are an invalid format.
    pub fn parse_mdd_file(content: &Vec<u8>) -> (r: DuplicateMddResult<MddFileStructure>)
        ensures
            r is Ok <==> content@.len() >= 4,
            r matches Err(e) ==> e matches DuplicateMddError::InvalidFileFormat(m) && m@
                == "File too small to be valid MDD"@,
            r matches Ok(s) ==> s.header.signature@ == "MDD"@ && s.header.version@ == "Unknown"@
                && s.header.creation_date@ == "Unknown"@ && s.header.description@ == ""@
                && s.header.record_count == 0 && s.header.variable_count == 0
                && s.variables@.len() == 0 && s.data_offset == 0 && s.record_size == 0
                && s.estimated_records == 0,
    {
        if content.len() < 4 {
            return Err(
                DuplicateMddError::InvalidFileFormat(
                    String::from_str("File too small to be valid MDD"),
                ),
            );
        }
        let header = Self::parse_mdd_header(content);
        Ok(
            MddFileStructure {
                header,
                variables: Vec::new(),
                data_offset: 0,
                record_size: 0,
                estimated_records: 0,
            },
        )
    }

    /// Builds the placeholder header used while the binary header format
    /// stays undecoded.
    pub fn parse_mdd_header(content: &Vec<u8>) -> (h: MddHeader)
        ensures
            h.signature@ == "MDD"@,
            h.version@ == "Unknown"@,
            h.creation_date@ == "Unknown"@,
            h.description@ == ""@,
            h.record_count == 0,
            h.variable_count == 0,
    {
        let _ = content;
        proof {
            reveal_strlit("");
        }
        MddHeader {
            signature: String::from_str("MDD"),
            version: String::from_str("Unknown"),
            creation_date: String::from_str("Unknown"),
            description: String::new(),
            record_count: 0,
            variable_count: 0,
        }
    }

    /// Estimates the record count of a dataset file from its size, assuming
    /// roughly 200 bytes per record and at least one record.
    pub fn estimate_record_count(mdd_size: u64) -> (r: u32)
        ensures
            r == if mdd_size / 200 > u32::MAX {
                u32::MAX as int
            } else if mdd_size / 200 < 1 {
                1int
            } else {
                (mdd_size / 200) as int
            },
    {
        let est = mdd_size / 200;
        if est > u32::MAX as u64 {
            u32::MAX
        } else if est < 1 {
            1
        } else {
            est as u32
        }
    }
}

} // verus!
