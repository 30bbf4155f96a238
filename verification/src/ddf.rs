//! Parser for the companion (DDF) text file: one variable descriptor per
//! non-empty, non-comment line.  A line is split on whitespace; the first
//! token is the variable name and the second, if present, the label (with
//! surrounding double quotes stripped).  When the line encodes them
//! explicitly, the third token names the variable type and the fourth its
//! width as `Width(n)`; otherwise the type is `Unknown` and the width 0.
//! Malformed lines are skipped, never fatal.

use vstd::prelude::*;
use crate::model::{MddFileInfo, MddVariable, MddVariableType};
use crate::text::{chars_val, is_digit_char};
use vstd::string::*;

verus! {

/// Whitespace that separates tokens within a line.
pub open spec fn is_space_char(c: char) -> bool {
    c == ' ' || c == '\t' || c == '\r'
}

/// Length of the maximal non-whitespace prefix of a line.
pub open spec fn first_token_len(s: Seq<char>) -> nat
    decreases s.len(),
{
    if s.len() == 0 || is_space_char(s[0]) {
        0
    } else {
        1 + first_token_len(s.drop_first())
    }
}

/// The first token is never longer than the line.
pub(crate) proof fn lemma_first_token_len_le(s: Seq<char>)
    ensures
        first_token_len(s) <= s.len(),
    decreases s.len(),
{
    if s.len() > 0 && !is_space_char(s[0]) {
        lemma_first_token_len_le(s.drop_first());
    }
}

/// The whitespace-separated tokens of a line, in order.
pub open spec fn spec_tokens(s: Seq<char>) -> Seq<Seq<char>>
    decreases s.len(),
    via spec_tokens_dec
{
    if s.len() == 0 {
        Seq::empty()
    } else if is_space_char(s[0]) {
        spec_tokens(s.drop_first())
    } else {
        seq![s.take(first_token_len(s) as int)] + spec_tokens(s.skip(first_token_len(s) as int))
    }
}

#[via_fn]
proof fn spec_tokens_dec(s: Seq<char>) {
    if s.len() > 0 && !is_space_char(s[0]) {
        lemma_first_token_len_le(s);
    }
}

/// If the first `m` characters are non-whitespace and position `m` is the
/// end of the line or whitespace, the first token has length `m`.
pub(crate) proof fn lemma_first_token_len_at(s: Seq<char>, m: int)
    requires
        0 <= m <= s.len(),
        forall|j: int| 0 <= j < m ==> !is_space_char(#[trigger] s[j]),
        m < s.len() ==> is_space_char(s[m]),
    ensures
        first_token_len(s) == m,
    decreases m,
{
    if m > 0 {
        lemma_first_token_len_at(s.drop_first(), m - 1);
    }
}

/// Ten raised to a small power; used to bound accumulated digit values.
pub open spec fn pow10(k: nat) -> int
    decreases k,
{
    if k == 0 {
        1
    } else {
        10 * pow10((k - 1) as nat)
    }
}

pub(crate) proof fn lemma_pow10_mono(a: nat, b: nat)
    requires
        a <= b,
    ensures
        1 <= pow10(a) <= pow10(b),
    decreases b,
{
    if b > 0 {
        if a == b {
            lemma_pow10_mono(0, (b - 1) as nat);
        } else {
            lemma_pow10_mono(a, (b - 1) as nat);
        }
    }
}

/// Value bound of an all-digit sequence: fewer than `k` digits denote less
/// than ten to the `k`.
proof fn lemma_digits_val_bound(s: Seq<char>)
    requires
        forall|i: int| 0 <= i < s.len() ==> is_digit_char(#[trigger] s[i]),
    ensures
        0 <= chars_val(s) < pow10(s.len()),
    decreases s.len(),
{
    if s.len() > 0 {
        lemma_digits_val_bound(s.drop_last());
    }
}

/// Whether every character of a sequence is a decimal digit.
pub open spec fn all_digits(s: Seq<char>) -> bool {
    forall|i: int| 0 <= i < s.len() ==> is_digit_char(#[trigger] s[i])
}

/// The width a `Width(n)` token encodes, with at most nine digits; any other
/// token shape encodes width 0.
pub open spec fn spec_parse_width(t: Seq<char>) -> nat {
    if t.len() >= 8 && t.take(6) == "Width("@ && t.last() == ')' && all_digits(
        t.subrange(6, t.len() - 1),
    ) && t.len() - 7 <= 9 {
        chars_val(t.subrange(6, t.len() - 1)) as nat
    } else {
        0
    }
}

/// The variable type a type token encodes; unrecognised tokens encode
/// `Unknown`.
pub open spec fn spec_parse_type(t: Seq<char>) -> MddVariableType {
    if t == "Text"@ {
        MddVariableType::Text
    } else if t == "Double"@ {
        MddVariableType::Number
    } else if t == "Date"@ {
        MddVariableType::Date
    } else if t == "Boolean"@ {
        MddVariableType::Boolean
    } else if t == "Categorical"@ {
        MddVariableType::Categorical
    } else {
        MddVariableType::Unknown
    }
}

/// The label a label token encodes: the token with surrounding double
/// quotes stripped, if both are present.
pub open spec fn spec_parse_label(t: Seq<char>) -> Seq<char> {
    if t.len() >= 2 && t[0] == '"' && t.last() == '"' {
        t.subrange(1, t.len() - 1)
    } else {
        t
    }
}

/// Mathematical result of parsing one companion-file line.
pub struct LineParse {
    /// The line is empty, all whitespace, or a `#` comment.
    pub skip: bool,
    pub name: Seq<char>,
    pub label: Seq<char>,
    pub var_type: MddVariableType,
    pub width: nat,
}

/// Parses one companion-file line.
pub open spec fn spec_parse_ddf_line(s: Seq<char>) -> LineParse {
    let toks = spec_tokens(s);
    if toks.len() == 0 || toks[0][0] == '#' {
        LineParse {
            skip: true,
            name: Seq::empty(),
            label: Seq::empty(),
            var_type: MddVariableType::Unknown,
            width: 0,
        }
    } else {
        LineParse {
            skip: false,
            name: toks[0],
            label: if toks.len() > 1 {
                spec_parse_label(toks[1])
            } else {
                Seq::empty()
            },
            var_type: if toks.len() > 2 {
                spec_parse_type(toks[2])
            } else {
                MddVariableType::Unknown
            },
            width: if toks.len() > 3 {
                spec_parse_width(toks[3])
            } else {
                0
            },
        }
    }
}

/// Index of the first newline in a sequence, or its length if none occurs.
pub open spec fn first_nl(s: Seq<char>) -> nat
    decreases s.len(),
{
    if s.len() == 0 {
        0
    } else if s[0] == '\n' {
        0
    } else {
        1 + first_nl(s.drop_first())
    }
}

pub(crate) proof fn lemma_first_nl_at(s: Seq<char>, m: int)
    requires
        0 <= m <= s.len(),
        forall|j: int| 0 <= j < m ==> #[trigger] s[j] != '\n',
        m < s.len() ==> s[m] == '\n',
    ensures
        first_nl(s) == m,
    decreases m,
{
    if m > 0 {
        lemma_first_nl_at(s.drop_first(), m - 1);
    }
}

/// The first newline index is never past the end.
proof fn lemma_first_nl_le(s: Seq<char>)
    ensures
        first_nl(s) <= s.len(),
    decreases s.len(),
{
    if s.len() > 0 && s[0] != '\n' {
        lemma_first_nl_le(s.drop_first());
    }
}

/// The descriptors that a whole companion file encodes, line by line,
/// skipped lines omitted.
pub open spec fn spec_parse_ddf(s: Seq<char>) -> Seq<LineParse>
    decreases s.len(),
    via spec_parse_ddf_dec
{
    if s.len() == 0 {
        Seq::empty()
    } else {
        let k = first_nl(s) as int;
        let lp = spec_parse_ddf_line(s.take(k));
        let rest = if k == s.len() {
            Seq::<LineParse>::empty()
        } else {
            spec_parse_ddf(s.skip(k + 1))
        };
        if lp.skip {
            rest
        } else {
            seq![lp] + rest
        }
    }
}

#[via_fn]
proof fn spec_parse_ddf_dec(s: Seq<char>) {
    if s.len() > 0 {
        lemma_first_nl_le(s);
    }
}

/// The line parse an executable descriptor stands for.
pub open spec fn var_line(v: MddVariable) -> LineParse {
    LineParse {
        skip: false,
        name: v.name@,
        label: v.label@,
        var_type: v.var_type,
        width: v.width as nat,
    }
}

/// Pointwise correspondence between parsed descriptors and the
/// mathematical parse of the file.
pub open spec fn vars_match_parse(vars: Seq<MddVariable>, parse: Seq<LineParse>) -> bool {
    vars.len() == parse.len() && forall|i: int|
        0 <= i < vars.len() ==> #[trigger] var_line(vars[i]) == parse[i]
}

/// Parsing is a pure function of the companion text: two descriptor
/// sequences parsed from the same content agree pointwise on every field.
pub proof fn lemma_parse_deterministic(
    vars1: Seq<MddVariable>,
    vars2: Seq<MddVariable>,
    content: Seq<char>,
)
    requires
        vars_match_parse(vars1, spec_parse_ddf(content)),
        vars_match_parse(vars2, spec_parse_ddf(content)),
    ensures
        vars1.len() == vars2.len(),
        forall|i: int|
            0 <= i < vars1.len() ==> #[trigger] var_line(vars1[i]) == var_line(vars2[i]),
{
}

/// Compares two string slices character by character.
pub fn str_eq(a: &str, b: &str) -> (r: bool)
    ensures
        r == (a@ == b@),
{
    let alen = a.unicode_len();
    let blen = b.unicode_len();
    if alen != blen {
        proof {
            assert(a@ != b@);
        }
        return false;
    }
    let mut i: usize = 0;
    while i < alen
        invariant
            alen == a@.len(),
            alen == b@.len(),
            i <= alen,
            forall|j: int| 0 <= j < i ==> a@[j] == b@[j],
        decreases alen - i,
    {
        if a.get_char(i) != b.get_char(i) {
            return false;
        }
        i = i + 1;
    }
    proof {
        assert(a@ =~= b@);
    }
    true
}

/// Finds the end of the run of non-whitespace characters that starts at
/// `from`.
fn find_token_end(line: &str, from: usize, n: usize) -> (j: usize)
    requires
        n == line@.len(),
        from <= n,
    ensures
        from <= j <= n,
        forall|m: int| from <= m < j ==> !is_space_char(#[trigger] line@[m]),
        j < n ==> is_space_char(line@[j as int]),
{
    let mut j = from;
    while j < n
        invariant
            n == line@.len(),
            from <= j <= n,
            forall|m: int| from <= m < j ==> !is_space_char(#[trigger] line@[m]),
        decreases n - j,
    {
        let c = line.get_char(j);
        let cu = c as u32;
        if cu == 32 || cu == 9 || cu == 13 {
            proof {
                assert(is_space_char(line@[j as int]));
            }
            return j;
        }
        proof {
            assert(!is_space_char(line@[j as int]));
        }
        j = j + 1;
    }
    j
}

/// Computes the whitespace-separated token spans of a line.
fn tokenize(line: &str) -> (spans: Vec<(usize, usize)>)
    ensures
        spans@.len() == spec_tokens(line@).len(),
        forall|t: int|
            0 <= t < spans@.len() ==> 0 <= #[trigger] spans@[t].0 < spans@[t].1 <= line@.len()
                && line@.subrange(spans@[t].0 as int, spans@[t].1 as int) == spec_tokens(line@)[t],
{
    let n = line.unicode_len();
    let mut spans: Vec<(usize, usize)> = Vec::new();
    let mut i: usize = 0;
    proof {
        assert(line@.skip(0) =~= line@);
        assert(span_views(line@, spans@) =~= Seq::<Seq<char>>::empty());
    }
    while i < n
        invariant
            n == line@.len(),
            i <= n,
            spec_tokens(line@) =~= span_views(line@, spans@) + spec_tokens(line@.skip(i as int)),
            forall|t: int|
                0 <= t < spans@.len() ==> 0 <= #[trigger] spans@[t].0 < spans@[t].1 <= line@.len()
                    && line@.subrange(spans@[t].0 as int, spans@[t].1 as int) == span_views(
                    line@,
                    spans@,
                )[t],
        decreases n - i,
    {
        let c = line.get_char(i);
        let cu = c as u32;
        if cu == 32 || cu == 9 || cu == 13 {
            proof {
                assert(is_space_char(line@[i as int]));
                assert(line@.skip(i as int).drop_first() =~= line@.skip(i as int + 1));
            }
            i = i + 1;
        } else {
            let start = i;
            let j = find_token_end(line, i, n);
            proof {
                assert(!is_space_char(line@[i as int]));
                assert(j > i) by {
                    if j == i {
                        assert(is_space_char(line@[i as int]));
                    }
                }
            }
            proof {
                let rest = line@.skip(i as int);
                assert forall|m: int| 0 <= m < j - i implies !is_space_char(
                    #[trigger] rest[m],
                ) by {
                    assert(rest[m] == line@[i + m]);
                }
                if j < n {
                    assert(rest[j - i] == line@[j as int]);
                }
                lemma_first_token_len_at(rest, j - i);
                assert(rest.take(j - i) =~= line@.subrange(i as int, j as int));
                assert(rest.skip(j - i) =~= line@.skip(j as int));
                assert(spec_tokens(rest) == seq![line@.subrange(i as int, j as int)]
                    + spec_tokens(line@.skip(j as int)));
            }
            spans.push((start, j));
            proof {
                assert(span_views(line@, spans@) =~= span_views(
                    line@,
                    spans@.drop_last(),
                ).push(line@.subrange(start as int, j as int)));
            }
            i = j;
        }
    }
    proof {
        assert(line@.skip(n as int) =~= Seq::<char>::empty());
        assert(span_views(line@, spans@) =~= spec_tokens(line@));
        assert forall|t: int| 0 <= t < spans@.len() implies 0 <= #[trigger] spans@[t].0
            < spans@[t].1 <= line@.len() && line@.subrange(
            spans@[t].0 as int,
            spans@[t].1 as int,
        ) == spec_tokens(line@)[t] by {
            assert(span_views(line@, spans@)[t] == line@.subrange(
                spans@[t].0 as int,
                spans@[t].1 as int,
            ));
        }
    }
    spans
}

/// The token views a list of spans selects from a line.
pub open spec fn span_views(s: Seq<char>, spans: Seq<(usize, usize)>) -> Seq<Seq<char>> {
    spans.map(|i: int, sp: (usize, usize)| s.subrange(sp.0 as int, sp.1 as int))
}

/// Parses the digits of a width token, at most nine of them.
fn parse_digits(line: &str, from: usize, to: usize) -> (w: u32)
    requires
        0 <= from <= to <= line@.len(),
        all_digits(line@.subrange(from as int, to as int)),
        1 <= to - from <= 9,
    ensures
        w == chars_val(line@.subrange(from as int, to as int)),
{
    let ghost mid = line@.subrange(from as int, to as int);
    let mut acc: u32 = 0;
    let mut k: usize = from;
    proof {
        assert(mid.take(0) =~= Seq::<char>::empty());
    }
    while k < to
        invariant
            0 <= from <= k <= to <= line@.len(),
            to - from <= 9,
            mid == line@.subrange(from as int, to as int),
            all_digits(mid),
            acc == chars_val(mid.take(k - from)),
            0 <= acc < pow10((k - from) as nat),
        decreases to - k,
    {
        let c = line.get_char(k);
        let cu = c as u32;
        proof {
            assert(mid[k - from] == line@[k as int]);
            assert(is_digit_char(c));
            assert(48 <= cu <= 57);
            lemma_pow10_mono((k - from) as nat, 8);
            assert(pow10(8) == 100000000) by {
                reveal_with_fuel(pow10, 10);
            }
        }
        let d = cu - 48;
        proof {
            assert(crate::text::digit_val(c) == d as int);
            assert(mid.take(k - from + 1).drop_last() =~= mid.take(k - from));
            assert(mid.take(k - from + 1).last() == mid[k - from]);
        }
        acc = acc * 10 + d;
        k = k + 1;
    }
    proof {
        assert(mid.take(to - from) =~= mid);
    }
    acc
}

/// Parses one line into a descriptor, or `None` for a line the parser
/// skips.  The returned descriptor matches the mathematical line parse.
pub fn parse_ddf_line(line: &str) -> (r: Option<MddVariable>)
    ensures
        r is Some <==> !spec_parse_ddf_line(line@).skip,
        r matches Some(v) ==> var_line(v) == spec_parse_ddf_line(line@),
{
    let spans = tokenize(line);
    if spans.len() == 0 {
        return None;
    }
    let (s0, e0) = (spans[0].0, spans[0].1);
    if line.get_char(s0) == '#' {
        proof {
            assert(spec_tokens(line@)[0][0] == line@[s0 as int]);
        }
        return None;
    }
    proof {
        assert(spec_tokens(line@)[0][0] == line@[s0 as int]);
    }
    let name = String::from_str(line.substring_char(s0, e0));
    let label = if spans.len() > 1 {
        let (s1, e1) = (spans[1].0, spans[1].1);
        let ghost tok = spec_tokens(line@)[1];
        if e1 - s1 >= 2 && line.get_char(s1) == '"' && line.get_char(e1 - 1) == '"' {
            proof {
                assert(tok[0] == line@[s1 as int]);
                assert(tok.last() == line@[e1 - 1]);
                assert(line@.subrange(s1 + 1, e1 - 1) =~= tok.subrange(1, tok.len() - 1));
            }
            String::from_str(line.substring_char(s1 + 1, e1 - 1))
        } else {
            proof {
                if tok.len() >= 2 {
                    assert(tok[0] == line@[s1 as int]);
                    assert(tok.last() == line@[e1 - 1]);
                }
            }
            String::from_str(line.substring_char(s1, e1))
        }
    } else {
        String::new()
    };
    let var_type = if spans.len() > 2 {
        let (s2, e2) = (spans[2].0, spans[2].1);
        let tok = line.substring_char(s2, e2);
        if str_eq(tok, "Text") {
            MddVariableType::Text
        } else if str_eq(tok, "Double") {
            MddVariableType::Number
        } else if str_eq(tok, "Date") {
            MddVariableType::Date
        } else if str_eq(tok, "Boolean") {
            MddVariableType::Boolean
        } else if str_eq(tok, "Categorical") {
            MddVariableType::Categorical
        } else {
            MddVariableType::Unknown
        }
    } else {
        MddVariableType::Unknown
    };
    let width: u32 = if spans.len() > 3 {
        let (s3, e3) = (spans[3].0, spans[3].1);
        proof {
            assert(line@.subrange(s3 as int, e3 as int) == spec_tokens(line@)[3]);
        }
        parse_width_token(line, s3, e3)
    } else {
        0
    };
    Some(MddVariable { name, label, var_type, position: 0, width })
}

/// Parses the width token at `[from, to)` of a line.
fn parse_width_token(line: &str, from: usize, to: usize) -> (w: u32)
    requires
        from < to <= line@.len(),
    ensures
        w as nat == spec_parse_width(line@.subrange(from as int, to as int)),
{
    let ghost tok = line@.subrange(from as int, to as int);
    let toklen = to - from;
    if !(toklen >= 8 && toklen - 7 <= 9) {
        return 0;
    }
    if !str_eq(line.substring_char(from, from + 6), "Width(") {
        proof {
            assert(line@.subrange(from as int, from + 6) =~= tok.take(6));
        }
        return 0;
    }
    if line.get_char(to - 1) != ')' {
        proof {
            assert(tok.last() == line@[to - 1]);
        }
        return 0;
    }
    proof {
        assert(line@.subrange(from as int, from + 6) =~= tok.take(6));
        assert(tok.last() == line@[to - 1]);
        assert(line@.subrange(from + 6, to - 1) =~= tok.subrange(6, tok.len() - 1));
    }
    let mut k = from + 6;
    while k < to - 1
        invariant
            from + 6 <= k <= to - 1,
            to <= line@.len(),
            from + 8 <= to,
            tok == line@.subrange(from as int, to as int),
            forall|m: int| from + 6 <= m < k ==> is_digit_char(#[trigger] line@[m]),
        decreases to - k,
    {
        let c = line.get_char(k);
        let cu = c as u32;
        if !(48 <= cu && cu <= 57) {
            proof {
                assert(!is_digit_char(line@[k as int]));
                assert(!all_digits(tok.subrange(6, tok.len() - 1))) by {
                    assert(tok.subrange(6, tok.len() - 1)[k - (from + 6)] == line@[k as int]);
                }
            }
            return 0;
        }
        proof {
            assert(is_digit_char(line@[k as int]));
        }
        k = k + 1;
    }
    proof {
        assert(all_digits(line@.subrange(from + 6, to - 1))) by {
            assert forall|m: int| 0 <= m < (to - 1) - (from + 6) implies is_digit_char(
                #[trigger] line@.subrange(from + 6, to - 1)[m],
            ) by {
                assert(line@.subrange(from + 6, to - 1)[m] == line@[from + 6 + m]);
            }
        }
        assert(spec_parse_width(tok) == chars_val(tok.subrange(6, tok.len() - 1)) as nat);
    }
    parse_digits(line, from + 6, to - 1)
}

/// Finds the end of the line that starts at `from`: the next newline, or
/// the end of the content.
fn find_line_end(content: &str, from: usize, n: usize) -> (k: usize)
    requires
        n == content@.len(),
        from <= n,
    ensures
        from <= k <= n,
        forall|j: int| from <= j < k ==> #[trigger] content@[j] != '\n',
        k < n ==> content@[k as int] == '\n',
{
    let mut k = from;
    while k < n
        invariant
            n == content@.len(),
            from <= k <= n,
            forall|j: int| from <= j < k ==> #[trigger] content@[j] != '\n',
        decreases n - k,
    {
        if content.get_char(k) == '\n' {
            return k;
        }
        k = k + 1;
    }
    k
}

impl MddFileInfo {
    /// Parses the text of a companion file into its ordered variable
    /// descriptors.  Parsing is a pure function of the text, so parsing the
    /// same text twice yields identical descriptor sequences.
    pub fn parse_ddf_file(content: &str) -> (vars: Vec<MddVariable>)
        ensures
            vars_match_parse(vars@, spec_parse_ddf(content@)),
    {
        let n = content.unicode_len();
        let mut vars: Vec<MddVariable> = Vec::new();
        let mut i: usize = 0;
        proof {
            assert(content@.skip(0) =~= content@);
            assert(vars@.map(|z: int, v: MddVariable| var_line(v)) =~= Seq::<LineParse>::empty());
        }
        while i < n
            invariant
                n == content@.len(),
                i <= n,
                spec_parse_ddf(content@) =~= vars@.map(|z: int, v: MddVariable| var_line(v))
                    + spec_parse_ddf(content@.skip(i as int)),
            decreases n - i,
        {
            let ghost prev = vars@;
            let k = find_line_end(content, i, n);
            let line = content.substring_char(i, k);
            let ghost rest = content@.skip(i as int);
            let ghost lp = spec_parse_ddf_line(line@);
            let ghost tail = if k == n {
                Seq::<LineParse>::empty()
            } else {
                spec_parse_ddf(content@.skip(k + 1))
            };
            proof {
                assert forall|j: int| 0 <= j < k - i implies #[trigger] rest[j] != '\n' by {
                    assert(rest[j] == content@[i + j]);
                }
                if k < n {
                    assert(rest[k - i] == content@[k as int]);
                }
                lemma_first_nl_at(rest, k - i);
                assert(rest.take(k - i) =~= content@.subrange(i as int, k as int));
                assert(line@ == rest.take(k - i));
                if k < n {
                    assert(rest.skip(k - i + 1) =~= content@.skip(k + 1));
                }
                assert(spec_parse_ddf(rest) == if lp.skip {
                    tail
                } else {
                    seq![lp] + tail
                });
            }
            let parsed = parse_ddf_line(line);
            match parsed {
                Some(v) => {
                    proof {
                        assert(var_line(v) == lp);
                    }
                    vars.push(v);
                    proof {
                        assert(vars@.map(|z: int, v: MddVariable| var_line(v)) =~= prev.map(
                            |z: int, v: MddVariable| var_line(v),
                        ).push(lp));
                        assert(prev.map(|z: int, v: MddVariable| var_line(v)) + (seq![lp] + tail)
                            =~= vars@.map(|z: int, v: MddVariable| var_line(v)) + tail);
                    }
                },
                None => {},
            }
            if k < n {
                i = k + 1;
            } else {
                i = n;
                proof {
                    assert(content@.skip(n as int) =~= Seq::<char>::empty());
                    assert(spec_parse_ddf(content@.skip(n as int)) =~= tail);
                }
            }
        }
        proof {
            assert(content@.skip(n as int) =~= Seq::<char>::empty());
            let parse = spec_parse_ddf(content@);
            let mapped = vars@.map(|z: int, v: MddVariable| var_line(v));
            assert(parse =~= mapped);
            assert forall|z: int| 0 <= z < vars@.len() implies #[trigger] var_line(vars@[z])
                == parse[z] by {
                assert(mapped[z] == var_line(vars@[z]));
            }
        }
        vars
    }
}

} // verus!
