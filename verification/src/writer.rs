//! Emitters for the two output file formats.  The binary dataset file is a
//! small text header (format tag and record count) followed by each
//! record's raw payload bytes in assigned-identifier order; the companion
//! text file is a comment block (duplication factor, generation timestamp,
//! record count) followed by one line per variable descriptor.  Both are
//! built in memory; the caller streams them to disk.

use vstd::prelude::*;
use crate::model::{MddRecord, MddVariable, MddVariableType};
use crate::text::{dec_bytes, dec_chars, u64_to_dec_bytes, u64_to_dec_string};
use vstd::string::*;

verus! {

/// The format tag that opens the binary dataset file, newline included.
pub open spec fn mdd_magic() -> Seq<u8> {
    seq![
        77u8, 68u8, 68u8, 95u8, 68u8, 85u8, 80u8, 76u8, 73u8, 67u8, 65u8, 84u8, 69u8, 68u8, 95u8,
        86u8, 49u8, 10u8,
    ]
}

/// The concatenated raw payloads of a record sequence, in order.
pub open spec fn concat_payloads(records: Seq<MddRecord>) -> Seq<u8>
    decreases records.len(),
{
    if records.len() == 0 {
        Seq::empty()
    } else {
        concat_payloads(records.drop_last()) + records.last().data@
    }
}

/// The full binary dataset file: format tag, decimal record count, newline,
/// then every payload in identifier order.
pub open spec fn spec_mdd_bytes(records: Seq<MddRecord>) -> Seq<u8> {
    mdd_magic() + dec_bytes(records.len()) + seq![10u8] + concat_payloads(records)
}

/// Builds the binary dataset file for a record sequence.
pub fn build_mdd_bytes(records: &Vec<MddRecord>) -> (out: Vec<u8>)
    ensures
        out@ == spec_mdd_bytes(records@),
{
    let mut out: Vec<u8> = Vec::new();
    out.push(77u8);
    out.push(68u8);
    out.push(68u8);
    out.push(95u8);
    out.push(68u8);
    out.push(85u8);
    out.push(80u8);
    out.push(76u8);
    out.push(73u8);
    out.push(67u8);
    out.push(65u8);
    out.push(84u8);
    out.push(69u8);
    out.push(68u8);
    out.push(95u8);
    out.push(86u8);
    out.push(49u8);
    out.push(10u8);
    proof {
        assert(out@ =~= mdd_magic());
    }
    let mut count_bytes = u64_to_dec_bytes(records.len() as u64);
    out.append(&mut count_bytes);
    out.push(10u8);
    let ghost prefix = mdd_magic() + dec_bytes(records@.len()) + seq![10u8];
    proof {
        assert(out@ =~= prefix);
    }
    let mut i: usize = 0;
    while i < records.len()
        invariant
            prefix == mdd_magic() + dec_bytes(records@.len()) + seq![10u8],
            i <= records@.len(),
            out@ =~= prefix + concat_payloads(records@.take(i as int)),
        decreases records@.len() - i,
    {
        let mut chunk = crate::engine::copy_bytes(&records[i].data);
        out.append(&mut chunk);
        proof {
            assert(records@.take(i + 1).drop_last() =~= records@.take(i as int));
            assert(records@.take(i + 1).last() == records@[i as int]);
        }
        i = i + 1;
    }
    proof {
        assert(records@.take(records@.len() as int) =~= records@);
        assert(out@ =~= spec_mdd_bytes(records@));
    }
    out
}

/// The name the companion file uses for a variable type; an undecoded type
/// is written as text.
pub open spec fn spec_type_name(t: MddVariableType) -> Seq<char> {
    match t {
        MddVariableType::Text => "Text"@,
        MddVariableType::Number => "Double"@,
        MddVariableType::Date => "Date"@,
        MddVariableType::Boolean => "Boolean"@,
        MddVariableType::Categorical => "Categorical"@,
        MddVariableType::Unknown => "Text"@,
    }
}

/// Writes the companion-file name of a variable type.
pub fn format_variable_type(t: MddVariableType) -> (r: &'static str)
    ensures
        r@ == spec_type_name(t),
{
    match t {
        MddVariableType::Text => "Text",
        MddVariableType::Number => "Double",
        MddVariableType::Date => "Date",
        MddVariableType::Boolean => "Boolean",
        MddVariableType::Categorical => "Categorical",
        MddVariableType::Unknown => "Text",
    }
}

/// One companion-file line: name, quoted label, type name, and width.
pub open spec fn spec_ddf_line(v: MddVariable) -> Seq<char> {
    v.name@ + " \""@ + v.label@ + "\" "@ + spec_type_name(v.var_type) + " Width("@ + dec_chars(
        v.width as nat,
    ) + ")\n"@
}

/// The concatenated descriptor lines of the companion file, one per
/// variable, in order.
pub open spec fn spec_ddf_lines(vars: Seq<MddVariable>) -> Seq<char>
    decreases vars.len(),
{
    if vars.len() == 0 {
        Seq::empty()
    } else {
        spec_ddf_lines(vars.drop_last()) + spec_ddf_line(vars.last())
    }
}

/// The comment block that opens the companion file.
pub open spec fn spec_ddf_header(
    duplicate_count: nat,
    timestamp: Seq<char>,
    record_count: nat,
) -> Seq<char> {
    "# DDF File - Duplicated "@ + dec_chars(duplicate_count) + " times\n"@ + "# Generated: "@
        + timestamp + "\n"@ + "# Total records: "@ + dec_chars(record_count) + "\n"@ + "\n"@
}

/// The full companion text file.
pub open spec fn spec_ddf_text(
    vars: Seq<MddVariable>,
    duplicate_count: nat,
    timestamp: Seq<char>,
    record_count: nat,
) -> Seq<char> {
    spec_ddf_header(duplicate_count, timestamp, record_count) + spec_ddf_lines(vars)
}

/// Builds the companion text file: the comment block, then one line per
/// variable descriptor, so the output lists exactly as many variables as
/// the input declared.
pub fn build_ddf_text(
    variables: &Vec<MddVariable>,
    duplicate_count: u32,
    timestamp: &str,
    record_count: u64,
) -> (out: String)
    ensures
        out@ == spec_ddf_text(
            variables@,
            duplicate_count as nat,
            timestamp@,
            record_count as nat,
        ),
{
    let mut out = String::from_str("# DDF File - Duplicated ");
    let dc = u64_to_dec_string(duplicate_count as u64);
    out.append(dc.as_str());
    out.append(" times\n");
    out.append("# Generated: ");
    out.append(timestamp);
    out.append("\n");
    out.append("# Total records: ");
    let rc = u64_to_dec_string(record_count);
    out.append(rc.as_str());
    out.append("\n");
    out.append("\n");
    let ghost header = spec_ddf_header(duplicate_count as nat, timestamp@, record_count as nat);
    proof {
        assert(out@ =~= header);
    }
    let mut i: usize = 0;
    while i < variables.len()
        invariant
            header == spec_ddf_header(duplicate_count as nat, timestamp@, record_count as nat),
            i <= variables@.len(),
            out@ =~= header + spec_ddf_lines(variables@.take(i as int)),
        decreases variables@.len() - i,
    {
        out.append(variables[i].name.as_str());
        out.append(" \"");
        out.append(variables[i].label.as_str());
        out.append("\" ");
        out.append(format_variable_type(variables[i].var_type));
        out.append(" Width(");
        let w = u64_to_dec_string(variables[i].width as u64);
        out.append(w.as_str());
        out.append(")\n");
        proof {
            assert(variables@.take(i + 1).drop_last() =~= variables@.take(i as int));
            assert(variables@.take(i + 1).last() == variables@[i as int]);
            assert(out@ =~= header + spec_ddf_lines(variables@.take(i + 1)));
        }
        i = i + 1;
    }
    proof {
        assert(variables@.take(variables@.len() as int) =~= variables@);
        assert(out@ =~= spec_ddf_text(
            variables@,
            duplicate_count as nat,
            timestamp@,
            record_count as nat,
        ));
    }
    out
}

} // verus!
