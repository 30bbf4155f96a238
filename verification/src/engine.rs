//! The duplication engine: given R parsed records and a duplication factor
//! N, produces N·R new records, each with a freshly assigned sequential
//! identifier, visiting duplication indices in order and, within each, the
//! original records in order.  Every field whose variable name is
//! identifier-like is rewritten to a value unique to the pair of duplication
//! index and the record's position in the whole original dataset: text gets
//! a suffix encoding the pair, numeric values an additive offset of one
//! million per duplication index plus the position.

use vstd::prelude::*;
use crate::model::{FieldV, MddFieldValue, MddRecord, MddVariable, MddVariableType, fv};
use crate::parser::{record_matches, spec_synth};
use crate::text::{
    is_identifier_like, lemma_suffix_injective, make_suffix, spec_is_identifier_like, suffix_chars,
};
use vstd::arithmetic::div_mod::{
    lemma_fundamental_div_mod, lemma_fundamental_div_mod_converse,
};
use vstd::string::*;

verus! {

/// The rewritten form of an identifier-like field value for duplication
/// index `d` and original record position `p`: text gains the suffix,
/// numeric values gain `d * 1_000_000 + p`, everything else is unchanged.
pub open spec fn rewrite_value(v: FieldV, d: nat, p: nat) -> FieldV {
    match v {
        FieldV::Text(s) => FieldV::Text(s + suffix_chars(d, p)),
        FieldV::Number(n) => FieldV::Number(n + d * 1000000 + p),
        FieldV::Integer(n) => FieldV::Integer(n + d * 1000000 + p),
        FieldV::Boolean(b) => FieldV::Boolean(b),
        FieldV::Null => FieldV::Null,
    }
}

/// The output value of a field: rewritten when its variable name is
/// identifier-like, the original value otherwise.
pub open spec fn out_field(orig: FieldV, name: Seq<char>, d: nat, p: nat) -> FieldV {
    if spec_is_identifier_like(name) {
        rewrite_value(orig, d, p)
    } else {
        orig
    }
}

/// Pointwise correspondence between one output record and the original it
/// was cloned from, for duplication index `d`, original position `p`, and
/// global output identifier `k`.
pub open spec fn dup_record_matches(out: MddRecord, orig: MddRecord, d: nat, p: nat, k: nat) -> bool {
    &&& out.record_id == k
    &&& out.data@ == orig.data@
    &&& out.variables@.len() == orig.variables@.len()
    &&& forall|j: int|
        0 <= j < orig.variables@.len() ==> (#[trigger] out.variables@[j]).0@
            == orig.variables@[j].0@ && fv(out.variables@[j].1) == out_field(
            fv(orig.variables@[j].1),
            orig.variables@[j].0@,
            d,
            p,
        )
}

/// Every numeric field of every record leaves room for the largest additive
/// offset a job with factor `n` over `len` records can apply.
pub open spec fn fields_fit(records: Seq<MddRecord>, n: int, len: int) -> bool {
    forall|i: int, j: int|
        0 <= i < records.len() && 0 <= j < records[i].variables@.len() ==> match fv(
            (#[trigger] records[i].variables@[j]).1,
        ) {
            FieldV::Number(v) => v + n * 1000000 + len <= i64::MAX,
            FieldV::Integer(v) => v + n * 1000000 + len <= i32::MAX,
            _ => true,
        }
}

/// Copies a byte vector.
pub fn copy_bytes(v: &Vec<u8>) -> (r: Vec<u8>)
    ensures
        r@ == v@,
{
    let mut r: Vec<u8> = Vec::new();
    let mut i: usize = 0;
    while i < v.len()
        invariant
            i <= v@.len(),
            r@ =~= v@.take(i as int),
        decreases v@.len() - i,
    {
        r.push(v[i]);
        i = i + 1;
    }
    proof {
        assert(r@ =~= v@);
    }
    r
}

/// Clones one record, assigns it the output identifier `k`, and rewrites
/// its identifier-like fields for duplication index `d` and original
/// position `p`.
fn duplicate_record(orig: &MddRecord, d: u32, p: usize, k: u32) -> (out: MddRecord)
    requires
        d * 1000000 + p <= i64::MAX,
        forall|j: int|
            0 <= j < orig.variables@.len() ==> match fv((#[trigger] orig.variables@[j]).1) {
                FieldV::Number(v) => v + d * 1000000 + p <= i64::MAX,
                FieldV::Integer(v) => v + d * 1000000 + p <= i32::MAX,
                _ => true,
            },
    ensures
        dup_record_matches(out, *orig, d as nat, p as nat, k as nat),
{
    let data = copy_bytes(&orig.data);
    let incr: i64 = (d as i64) * 1000000 + (p as i64);
    let mut overlay: Vec<(String, MddFieldValue)> = Vec::new();
    let mut j: usize = 0;
    while j < orig.variables.len()
        invariant
            incr == d * 1000000 + p,
            incr >= 0,
            forall|z: int|
                0 <= z < orig.variables@.len() ==> match fv((#[trigger] orig.variables@[z]).1) {
                    FieldV::Number(v) => v + d * 1000000 + p <= i64::MAX,
                    FieldV::Integer(v) => v + d * 1000000 + p <= i32::MAX,
                    _ => true,
                },
            j <= orig.variables@.len(),
            overlay@.len() == j,
            forall|z: int|
                0 <= z < j ==> (#[trigger] overlay@[z]).0@ == orig.variables@[z].0@ && fv(
                    overlay@[z].1,
                ) == out_field(
                    fv(orig.variables@[z].1),
                    orig.variables@[z].0@,
                    d as nat,
                    p as nat,
                ),
        decreases orig.variables@.len() - j,
    {
        let name = String::from_str(orig.variables[j].0.as_str());
        let idlike = is_identifier_like(orig.variables[j].0.as_str());
        let value = if idlike {
            match &orig.variables[j].1 {
                MddFieldValue::Text(s) => {
                    let mut t = String::from_str(s.as_str());
                    let suffix = make_suffix(d, p);
                    t.append(suffix.as_str());
                    MddFieldValue::Text(t)
                },
                MddFieldValue::Number(v) => MddFieldValue::Number(*v + incr),
                MddFieldValue::Integer(v) => {
                    let widened: i64 = (*v as i64) + incr;
                    MddFieldValue::Integer(widened as i32)
                },
                MddFieldValue::Boolean(b) => MddFieldValue::Boolean(*b),
                MddFieldValue::Null => MddFieldValue::Null,
            }
        } else {
            match &orig.variables[j].1 {
                MddFieldValue::Text(s) => MddFieldValue::Text(String::from_str(s.as_str())),
                MddFieldValue::Number(v) => MddFieldValue::Number(*v),
                MddFieldValue::Integer(v) => MddFieldValue::Integer(*v),
                MddFieldValue::Boolean(b) => MddFieldValue::Boolean(*b),
                MddFieldValue::Null => MddFieldValue::Null,
            }
        };
        overlay.push((name, value));
        j = j + 1;
    }
    MddRecord { record_id: k, data, variables: overlay }
}

/// Produces the `n * records.len()` output records of one job, identifiers
/// assigned sequentially from 0 in visit order: duplication index first,
/// then original position.  Output `k` is the copy of original record
/// `k % records.len()` for duplication index `k / records.len()`.
pub fn generate_duplicated_records(records: &Vec<MddRecord>, duplicate_count: u32) -> (out: Vec<
    MddRecord,
>)
    requires
        duplicate_count * records@.len() <= u32::MAX,
        fields_fit(records@, duplicate_count as int, records@.len() as int),
    ensures
        out@.len() == duplicate_count * records@.len(),
        forall|k: int| 0 <= k < out@.len() ==> (#[trigger] out@[k]).record_id == k,
        forall|k: int|
            0 <= k < out@.len() ==> dup_record_matches(
                #[trigger] out@[k],
                records@[k % records@.len() as int],
                (k / records@.len() as int) as nat,
                (k % records@.len() as int) as nat,
                k as nat,
            ),
{
    let len = records.len();
    let mut out: Vec<MddRecord> = Vec::new();
    let mut d: u32 = 0;
    while d < duplicate_count
        invariant
            len == records@.len(),
            duplicate_count * len <= u32::MAX,
            fields_fit(records@, duplicate_count as int, len as int),
            d <= duplicate_count,
            out@.len() == d * len,
            forall|k: int| 0 <= k < out@.len() ==> (#[trigger] out@[k]).record_id == k,
            forall|k: int|
                0 <= k < out@.len() ==> dup_record_matches(
                    #[trigger] out@[k],
                    records@[k % len as int],
                    (k / len as int) as nat,
                    (k % len as int) as nat,
                    k as nat,
                ),
        decreases duplicate_count - d,
    {
        proof {
            assert(d * len <= duplicate_count * len && (d + 1) * len <= duplicate_count * len)
                by (nonlinear_arith)
                requires
                    0 <= d,
                    d < duplicate_count,
                    0 <= len,
            ;
            assert(len <= duplicate_count * len) by (nonlinear_arith)
                requires
                    1 <= duplicate_count,
                    0 <= len,
            ;
            assert(len <= u32::MAX);
        }
        let mut p: usize = 0;
        while p < len
            invariant
                len == records@.len(),
                duplicate_count * len <= u32::MAX,
                fields_fit(records@, duplicate_count as int, len as int),
                d < duplicate_count,
                (d + 1) * len <= duplicate_count * len,
                len <= u32::MAX,
                p <= len,
                out@.len() == d * len + p,
                forall|k: int| 0 <= k < out@.len() ==> (#[trigger] out@[k]).record_id == k,
                forall|k: int|
                    0 <= k < out@.len() ==> dup_record_matches(
                        #[trigger] out@[k],
                        records@[k % len as int],
                        (k / len as int) as nat,
                        (k % len as int) as nat,
                        k as nat,
                    ),
            decreases len - p,
        {
            proof {
                assert(d * len + p < (d + 1) * len) by (nonlinear_arith)
                    requires
                        0 <= d,
                        0 <= p < len,
                ;
                assert(d * 1000000 + p <= i64::MAX) by (nonlinear_arith)
                    requires
                        0 <= d <= u32::MAX,
                        0 <= p < len,
                        len <= u32::MAX,
                ;
            }
            let k = out.len() as u32;
            let rec = duplicate_record(&records[p], d, p, k);
            out.push(rec);
            proof {
                let ki = out@.len() - 1;
                lemma_fundamental_div_mod_converse(ki, len as int, d as int, p as int);
                assert(dup_record_matches(
                    out@[ki],
                    records@[ki % len as int],
                    (ki / len as int) as nat,
                    (ki % len as int) as nat,
                    ki as nat,
                ));
            }
            p = p + 1;
        }
        proof {
            assert((d + 1) * len == d * len + len) by (nonlinear_arith);
        }
        d = d + 1;
    }
    out
}

/// No two output records of one job share a rewritten identifier-like
/// value.  For records as the dataset parser synthesizes them, two distinct
/// output records differ on every identifier-like variable of text or
/// numeric type: the text suffix and the numeric offset each encode the
/// duplication index and the original record position injectively.
pub proof fn lemma_rewritten_identifiers_unique(
    buffer: Seq<u8>,
    vars: Seq<MddVariable>,
    records: Seq<MddRecord>,
    out: Seq<MddRecord>,
    n: nat,
    k1: int,
    k2: int,
    j: int,
)
    requires
        0 < records.len() <= 500000,
        forall|i: int|
            0 <= i < records.len() ==> record_matches(#[trigger] records[i], buffer, vars, i as nat),
        out.len() == n * records.len(),
        forall|k: int|
            0 <= k < out.len() ==> dup_record_matches(
                #[trigger] out[k],
                records[k % records.len() as int],
                (k / records.len() as int) as nat,
                (k % records.len() as int) as nat,
                k as nat,
            ),
        0 <= k1 < out.len(),
        0 <= k2 < out.len(),
        k1 != k2,
        0 <= j < vars.len(),
        spec_is_identifier_like(vars[j].name@),
        vars[j].var_type == MddVariableType::Text || vars[j].var_type == MddVariableType::Number,
    ensures
        fv(out[k1].variables@[j].1) != fv(out[k2].variables@[j].1),
{
    let len = records.len() as int;
    let d1 = k1 / len;
    let p1 = k1 % len;
    let d2 = k2 / len;
    let p2 = k2 % len;
    lemma_fundamental_div_mod(k1, len);
    lemma_fundamental_div_mod(k2, len);
    assert(record_matches(records[p1], buffer, vars, p1 as nat));
    assert(record_matches(records[p2], buffer, vars, p2 as nat));
    assert(dup_record_matches(out[k1], records[p1], d1 as nat, p1 as nat, k1 as nat));
    assert(dup_record_matches(out[k2], records[p2], d2 as nat, p2 as nat, k2 as nat));
    let name = vars[j].name@;
    assert(records[p1].variables@[j].0@ == name);
    assert(records[p2].variables@[j].0@ == name);
    let o1 = fv(records[p1].variables@[j].1);
    let o2 = fv(records[p2].variables@[j].1);
    assert(o1 == spec_synth(vars[j].var_type, p1 as nat));
    assert(o2 == spec_synth(vars[j].var_type, p2 as nat));
    let v1 = fv(out[k1].variables@[j].1);
    let v2 = fv(out[k2].variables@[j].1);
    assert(v1 == rewrite_value(o1, d1 as nat, p1 as nat));
    assert(v2 == rewrite_value(o2, d2 as nat, p2 as nat));
    if v1 == v2 {
        if vars[j].var_type == MddVariableType::Text {
            let t1 = "Text_"@ + crate::text::dec_chars(p1 as nat);
            let t2 = "Text_"@ + crate::text::dec_chars(p2 as nat);
            assert(v1 == FieldV::Text(t1 + suffix_chars(d1 as nat, p1 as nat)));
            assert(v2 == FieldV::Text(t2 + suffix_chars(d2 as nat, p2 as nat)));
            lemma_suffix_injective(t1, d1 as nat, p1 as nat, t2, d2 as nat, p2 as nat);
            assert(k1 == k2);
        } else {
            assert(v1 == FieldV::Number(d1 * 1000000 + 2 * p1));
            assert(v2 == FieldV::Number(d2 * 1000000 + 2 * p2));
            assert(d1 * 1000000 + 2 * p1 == d2 * 1000000 + 2 * p2);
            assert(d1 == d2 && p1 == p2) by (nonlinear_arith)
                requires
                    d1 * 1000000 + 2 * p1 == d2 * 1000000 + 2 * p2,
                    0 <= p1 < 500000,
                    0 <= p2 < 500000,
                    0 <= d1,
                    0 <= d2,
            ;
            assert(k1 == k2);
        }
        assert(false);
    }
}

/// A job with duplication factor one keeps the record count and alters no
/// field value beyond the identifier rewrite for duplication index zero and
/// the record's own position.
pub proof fn lemma_single_copy_preserves_records(records: Seq<MddRecord>, out: Seq<MddRecord>)
    requires
        records.len() > 0,
        out.len() == 1 * records.len(),
        forall|k: int|
            0 <= k < out.len() ==> dup_record_matches(
                #[trigger] out[k],
                records[k % records.len() as int],
                (k / records.len() as int) as nat,
                (k % records.len() as int) as nat,
                k as nat,
            ),
    ensures
        out.len() == records.len(),
        forall|k: int|
            0 <= k < out.len() ==> dup_record_matches(#[trigger] out[k], records[k], 0, k as nat,
            k as nat),
{
    let len = records.len() as int;
    assert forall|k: int| 0 <= k < out.len() implies dup_record_matches(
        #[trigger] out[k],
        records[k],
        0,
        k as nat,
        k as nat,
    ) by {
        lemma_fundamental_div_mod_converse(k, len, 0, k);
        assert(k % len == k && k / len == 0);
    }
}

} // verus!
