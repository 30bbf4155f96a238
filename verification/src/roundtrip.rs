//! Round trip of the companion file: the text the writer emits parses back
//! to the descriptors it was written from.  The comment block is skipped,
//! and every descriptor line yields its name, label and width unchanged;
//! only an undecoded variable type comes back as text, because that is how
//! the writer spells it.  This holds for descriptors the line format can
//! carry: names and labels free of whitespace and newlines, names that do
//! not open like a comment, and widths of at most nine digits.

use vstd::prelude::*;
use crate::ddf::{
    LineParse, all_digits, first_token_len, is_space_char, lemma_first_nl_at,
    lemma_first_token_len_at, spec_parse_ddf, spec_parse_ddf_line, spec_parse_label,
    spec_parse_type, spec_parse_width, spec_tokens,
};
use crate::model::{MddVariable, MddVariableType};
use crate::text::{
    dec_chars, is_digit_char, lemma_dec_chars_digits, lemma_dec_chars_val,
};
use crate::writer::{spec_ddf_header, spec_ddf_line, spec_ddf_lines, spec_ddf_text, spec_type_name};

verus! {

/// No character of the sequence is a newline.
pub open spec fn no_nl(s: Seq<char>) -> bool {
    forall|i: int| 0 <= i < s.len() ==> #[trigger] s[i] != '\n'
}

/// No character of the sequence is token-separating whitespace.
pub open spec fn no_space(s: Seq<char>) -> bool {
    forall|i: int| 0 <= i < s.len() ==> !is_space_char(#[trigger] s[i])
}

/// A descriptor the companion line format can carry faithfully.
pub open spec fn writable_var(v: MddVariable) -> bool {
    &&& v.name@.len() > 0
    &&& no_space(v.name@)
    &&& no_nl(v.name@)
    &&& v.name@[0] != '#'
    &&& no_space(v.label@)
    &&& no_nl(v.label@)
    &&& v.width <= 999999999
}

/// The variable type as the written file carries it: the writer spells an
/// undecoded type as text.
pub open spec fn written_type(t: MddVariableType) -> MddVariableType {
    if t is Unknown {
        MddVariableType::Text
    } else {
        t
    }
}

/// The line parse a written descriptor comes back as.
pub open spec fn var_lp_written(v: MddVariable) -> LineParse {
    LineParse {
        skip: false,
        name: v.name@,
        label: v.label@,
        var_type: written_type(v.var_type),
        width: v.width as nat,
    }
}

/// A nonempty all-non-whitespace word followed by whitespace is one token.
proof fn lemma_tokens_word_space(word: Seq<char>, rest: Seq<char>)
    requires
        word.len() > 0,
        no_space(word),
        rest.len() > 0,
        is_space_char(rest[0]),
    ensures
        spec_tokens(word + rest) == seq![word] + spec_tokens(rest),
{
    let s = word + rest;
    assert(s[0] == word[0]);
    assert forall|j: int| 0 <= j < word.len() implies !is_space_char(#[trigger] s[j]) by {
        assert(s[j] == word[j]);
    }
    assert(s[word.len() as int] == rest[0]);
    lemma_first_token_len_at(s, word.len() as int);
    assert(s.take(word.len() as int) =~= word);
    assert(s.skip(word.len() as int) =~= rest);
}

/// A nonempty all-non-whitespace word at the end of a line is one token.
proof fn lemma_tokens_word_end(word: Seq<char>)
    requires
        word.len() > 0,
        no_space(word),
    ensures
        spec_tokens(word) == seq![word],
{
    assert(!is_space_char(word[0]));
    lemma_first_token_len_at(word, word.len() as int);
    assert(word.take(word.len() as int) =~= word);
    assert(word.skip(word.len() as int) =~= Seq::<char>::empty());
    assert(spec_tokens(word.skip(word.len() as int)) =~= Seq::<Seq<char>>::empty());
    assert(spec_tokens(word) =~= seq![word]);
}

/// The written body of one descriptor line, without its newline.
pub open spec fn line_body(v: MddVariable) -> Seq<char> {
    v.name@ + seq![' '] + quoted(v.label@) + seq![' '] + spec_type_name(v.var_type) + seq![' ']
        + width_word(v.width as nat)
}

/// A label as the line carries it, wrapped in double quotes.
pub open spec fn quoted(label: Seq<char>) -> Seq<char> {
    seq!['"'] + label + seq!['"']
}

/// A width as the line carries it.
pub open spec fn width_word(w: nat) -> Seq<char> {
    "Width("@ + dec_chars(w) + seq![')']
}

/// The written line is its body followed by one newline.
proof fn lemma_line_shape(v: MddVariable)
    ensures
        spec_ddf_line(v) == line_body(v) + seq!['\n'],
{
    reveal_strlit(" \"");
    reveal_strlit("\" ");
    reveal_strlit(" Width(");
    reveal_strlit("Width(");
    reveal_strlit(")\n");
    assert(spec_ddf_line(v) =~= line_body(v) + seq!['\n']);
}

/// The type names the writer uses are nonempty, non-whitespace, and free of
/// newlines, digits and hash marks.
proof fn lemma_type_name_chars(t: MddVariableType)
    ensures
        spec_type_name(t).len() > 0,
        no_space(spec_type_name(t)),
        no_nl(spec_type_name(t)),
{
    reveal_strlit("Text");
    reveal_strlit("Double");
    reveal_strlit("Date");
    reveal_strlit("Boolean");
    reveal_strlit("Categorical");
}

/// Decimal digits are neither whitespace nor newlines.
proof fn lemma_digits_chars(w: nat)
    ensures
        dec_chars(w).len() > 0,
        no_space(dec_chars(w)),
        no_nl(dec_chars(w)),
{
    lemma_dec_chars_digits(w);
    assert forall|i: int| 0 <= i < dec_chars(w).len() implies !is_space_char(
        #[trigger] dec_chars(w)[i],
    ) && dec_chars(w)[i] != '\n' by {
        assert(is_digit_char(dec_chars(w)[i]));
    }
}

/// The width word is nonempty, all non-whitespace, newline-free.
proof fn lemma_width_word_chars(w: nat)
    ensures
        width_word(w).len() == 7 + dec_chars(w).len(),
        no_space(width_word(w)),
        no_nl(width_word(w)),
{
    reveal_strlit("Width(");
    lemma_digits_chars(w);
    let ww = width_word(w);
    assert forall|i: int| 0 <= i < ww.len() implies !is_space_char(#[trigger] ww[i]) && ww[i]
        != '\n' by {
        if i < 6 {
            assert(ww[i] == "Width("@[i]);
        } else if i < 6 + dec_chars(w).len() {
            assert(ww[i] == dec_chars(w)[i - 6]);
        } else {
            assert(ww[i] == ')');
        }
    }
}

/// A written descriptor line has no newline in its body.
proof fn lemma_line_body_no_nl(v: MddVariable)
    requires
        writable_var(v),
    ensures
        line_body(v).len() > 0,
        no_nl(line_body(v)),
{
    lemma_type_name_chars(v.var_type);
    lemma_width_word_chars(v.width as nat);
    let b = line_body(v);
    let n = v.name@;
    let q = quoted(v.label@);
    let tn = spec_type_name(v.var_type);
    let ww = width_word(v.width as nat);
    assert forall|i: int| 0 <= i < b.len() implies #[trigger] b[i] != '\n' by {
        let o1 = n.len() as int;
        let o2 = o1 + 1;
        let o3 = o2 + q.len() as int;
        let o4 = o3 + 1;
        let o5 = o4 + tn.len() as int;
        let o6 = o5 + 1;
        if i < o1 {
            assert(b[i] == n[i]);
        } else if i < o2 {
            assert(b[i] == ' ');
        } else if i < o3 {
            assert(b[i] == q[i - o2]);
            if i - o2 == 0 || i - o2 == q.len() - 1 {
            } else {
                assert(q[i - o2] == v.label@[i - o2 - 1]);
            }
        } else if i < o4 {
            assert(b[i] == ' ');
        } else if i < o5 {
            assert(b[i] == tn[i - o4]);
        } else if i < o6 {
            assert(b[i] == ' ');
        } else {
            assert(b[i] == ww[i - o6]);
        }
    }
}

/// The tokens of a written descriptor line: name, quoted label, type name,
/// width word.
proof fn lemma_line_tokens(v: MddVariable)
    requires
        writable_var(v),
    ensures
        spec_tokens(line_body(v)) == seq![
            v.name@,
            quoted(v.label@),
            spec_type_name(v.var_type),
            width_word(v.width as nat),
        ],
{
    lemma_type_name_chars(v.var_type);
    lemma_width_word_chars(v.width as nat);
    let n = v.name@;
    let q = quoted(v.label@);
    let tn = spec_type_name(v.var_type);
    let ww = width_word(v.width as nat);
    assert(no_space(q)) by {
        assert forall|i: int| 0 <= i < q.len() implies !is_space_char(#[trigger] q[i]) by {
            if i == 0 || i == q.len() - 1 {
            } else {
                assert(q[i] == v.label@[i - 1]);
            }
        }
    }
    let r1 = seq![' '] + q + seq![' '] + tn + seq![' '] + ww;
    let r2 = q + seq![' '] + tn + seq![' '] + ww;
    let r3 = seq![' '] + tn + seq![' '] + ww;
    let r4 = tn + seq![' '] + ww;
    let r5 = seq![' '] + ww;
    assert(line_body(v) =~= n + r1);
    lemma_tokens_word_space(n, r1);
    assert(r1.drop_first() =~= r2);
    assert(spec_tokens(r1) == spec_tokens(r2));
    assert(r2 =~= q + r3);
    lemma_tokens_word_space(q, r3);
    assert(r3.drop_first() =~= r4);
    assert(spec_tokens(r3) == spec_tokens(r4));
    assert(r4 =~= tn + r5);
    lemma_tokens_word_space(tn, r5);
    assert(r5.drop_first() =~= ww);
    assert(spec_tokens(r5) == spec_tokens(ww));
    lemma_tokens_word_end(ww);
    assert(spec_tokens(line_body(v)) =~= seq![n, q, tn, ww]);
}

/// Parsing a written descriptor line gives back the descriptor.
proof fn lemma_parse_written_line(v: MddVariable)
    requires
        writable_var(v),
    ensures
        spec_parse_ddf_line(line_body(v)) == var_lp_written(v),
{
    lemma_line_tokens(v);
    let toks = spec_tokens(line_body(v));
    assert(toks[0][0] == v.name@[0]);
    let q = quoted(v.label@);
    assert(q[0] == '"' && q.last() == '"' && q.len() >= 2);
    assert(spec_parse_label(q) =~= v.label@);
    assert(spec_parse_type(spec_type_name(v.var_type)) == written_type(v.var_type)) by {
        reveal_strlit("Text");
        reveal_strlit("Double");
        reveal_strlit("Date");
        reveal_strlit("Boolean");
        reveal_strlit("Categorical");
        match v.var_type {
            MddVariableType::Text => {},
            MddVariableType::Number => {
                assert("Double"@.len() == 6 && "Text"@.len() == 4);
            },
            MddVariableType::Date => {
                assert("Date"@[0] == 'D' && "Text"@[0] == 'T');
                assert("Date"@.len() == 4 && "Double"@.len() == 6);
            },
            MddVariableType::Boolean => {
                assert("Boolean"@.len() == 7 && "Text"@.len() == 4 && "Double"@.len() == 6
                    && "Date"@.len() == 4);
            },
            MddVariableType::Categorical => {
                assert("Categorical"@.len() == 11 && "Text"@.len() == 4 && "Double"@.len() == 6
                    && "Date"@.len() == 4 && "Boolean"@.len() == 7);
            },
            MddVariableType::Unknown => {},
        }
    }
    let ww = width_word(v.width as nat);
    assert(spec_parse_width(ww) == v.width as nat) by {
        reveal_strlit("Width(");
        lemma_dec_chars_digits(v.width as nat);
        lemma_dec_chars_val(v.width as nat);
        lemma_dec_chars_len_9(v.width as nat);
        assert(ww.take(6) =~= "Width("@);
        assert(ww.last() == ')');
        assert(ww.subrange(6, ww.len() - 1) =~= dec_chars(v.width as nat));
        assert(ww.len() >= 8 && ww.len() - 7 <= 9);
        assert(all_digits(ww.subrange(6, ww.len() - 1)));
    }
}

/// A number of at most nine digits in value renders in at most nine digits.
proof fn lemma_dec_chars_len_9(n: nat)
    requires
        n <= 999999999,
    ensures
        dec_chars(n).len() <= 9,
{
    assert(crate::ddf::pow10(9) == 1000000000) by {
        reveal_with_fuel(crate::ddf::pow10, 10);
    }
    lemma_dec_chars_len_le(n, 9);
}

proof fn lemma_dec_chars_len_le(n: nat, k: nat)
    requires
        k >= 1,
        n < crate::ddf::pow10(k),
    ensures
        dec_chars(n).len() <= k,
    decreases k,
{
    assert(crate::ddf::pow10(9) == 1000000000) by {
        reveal_with_fuel(crate::ddf::pow10, 10);
    }
    if n < 10 {
    } else {
        assert(k >= 2) by {
            if k == 1 {
                assert(crate::ddf::pow10(1) == 10 * crate::ddf::pow10(0));
            }
        }
        assert(n / 10 < crate::ddf::pow10((k - 1) as nat)) by {
            assert(crate::ddf::pow10(k) == 10 * crate::ddf::pow10((k - 1) as nat));
            vstd::arithmetic::div_mod::lemma_fundamental_div_mod(n as int, 10);
        }
        lemma_dec_chars_len_le(n / 10, (k - 1) as nat);
    }
}

/// Parsing one newline-free line followed by the rest of the file parses
/// the line, then the rest.
proof fn lemma_parse_split(body: Seq<char>, rest: Seq<char>)
    requires
        no_nl(body),
    ensures
        spec_parse_ddf(body + seq!['\n'] + rest) == (if spec_parse_ddf_line(body).skip {
            Seq::<LineParse>::empty()
        } else {
            seq![spec_parse_ddf_line(body)]
        }) + spec_parse_ddf(rest),
{
    let s = body + seq!['\n'] + rest;
    assert forall|j: int| 0 <= j < body.len() implies #[trigger] s[j] != '\n' by {
        assert(s[j] == body[j]);
    }
    assert(s[body.len() as int] == '\n');
    lemma_first_nl_at(s, body.len() as int);
    assert(s.take(body.len() as int) =~= body);
    assert(s.skip(body.len() as int + 1) =~= rest);
    if spec_parse_ddf_line(body).skip {
        assert(spec_parse_ddf(s) =~= spec_parse_ddf(rest));
    } else {
        assert(spec_parse_ddf(s) =~= seq![spec_parse_ddf_line(body)] + spec_parse_ddf(rest));
    }
}

/// A line that opens with a hash mark is skipped.
proof fn lemma_hash_line_skips(s: Seq<char>)
    requires
        s.len() > 0,
        s[0] == '#',
    ensures
        spec_parse_ddf_line(s).skip,
{
    let toks = spec_tokens(s);
    assert(!is_space_char(s[0]));
    assert(first_token_len(s) >= 1);
    crate::ddf::lemma_first_token_len_le(s);
    assert(toks[0] == s.take(first_token_len(s) as int));
    assert(s.take(first_token_len(s) as int)[0] == s[0]);
    assert(toks[0][0] == s[0]);
}

/// Parsing skips the whole comment block that opens a written companion
/// file, and goes on with whatever follows it.
proof fn lemma_parse_header(
    duplicate_count: nat,
    timestamp: Seq<char>,
    record_count: nat,
    rest: Seq<char>,
)
    requires
        no_nl(timestamp),
    ensures
        spec_parse_ddf(spec_ddf_header(duplicate_count, timestamp, record_count) + rest)
            == spec_parse_ddf(rest),
{
    reveal_strlit("# DDF File - Duplicated ");
    reveal_strlit(" times\n");
    reveal_strlit("# Generated: ");
    reveal_strlit("# Total records: ");
    reveal_strlit("\n");
    lemma_digits_chars(duplicate_count);
    lemma_digits_chars(record_count);
    let h1 = "# DDF File - Duplicated "@ + dec_chars(duplicate_count) + seq![
        ' ', 't', 'i', 'm', 'e', 's',
    ];
    let h2 = "# Generated: "@ + timestamp;
    let h3 = "# Total records: "@ + dec_chars(record_count);
    let h4 = Seq::<char>::empty();
    let tail3 = h4 + seq!['\n'] + rest;
    let tail2 = h3 + seq!['\n'] + tail3;
    let tail1 = h2 + seq!['\n'] + tail2;
    assert(spec_ddf_header(duplicate_count, timestamp, record_count) + rest =~= h1 + seq!['\n']
        + tail1);
    assert(no_nl(h1)) by {
        assert forall|i: int| 0 <= i < h1.len() implies #[trigger] h1[i] != '\n' by {
            let p = "# DDF File - Duplicated "@.len() as int;
            if i < p {
                assert(h1[i] == "# DDF File - Duplicated "@[i]);
            } else if i < p + dec_chars(duplicate_count).len() {
                assert(h1[i] == dec_chars(duplicate_count)[i - p]);
            }
        }
    }
    assert(no_nl(h2)) by {
        assert forall|i: int| 0 <= i < h2.len() implies #[trigger] h2[i] != '\n' by {
            let p = "# Generated: "@.len() as int;
            if i < p {
                assert(h2[i] == "# Generated: "@[i]);
            } else {
                assert(h2[i] == timestamp[i - p]);
            }
        }
    }
    assert(no_nl(h3)) by {
        assert forall|i: int| 0 <= i < h3.len() implies #[trigger] h3[i] != '\n' by {
            let p = "# Total records: "@.len() as int;
            if i < p {
                assert(h3[i] == "# Total records: "@[i]);
            } else {
                assert(h3[i] == dec_chars(record_count)[i - p]);
            }
        }
    }
    assert(h1[0] == '#');
    assert(h2[0] == '#');
    assert(h3[0] == '#');
    lemma_hash_line_skips(h1);
    lemma_hash_line_skips(h2);
    lemma_hash_line_skips(h3);
    assert(spec_parse_ddf_line(h4).skip);
    lemma_parse_split(h1, tail1);
    lemma_parse_split(h2, tail2);
    lemma_parse_split(h3, tail3);
    lemma_parse_split(h4, rest);
}

/// Head decomposition of the written descriptor lines.
proof fn lemma_ddf_lines_first(vars: Seq<MddVariable>)
    requires
        vars.len() > 0,
    ensures
        spec_ddf_lines(vars) == spec_ddf_line(vars[0]) + spec_ddf_lines(vars.drop_first()),
    decreases vars.len(),
{
    if vars.len() == 1 {
        assert(vars.drop_last() =~= Seq::<MddVariable>::empty());
        assert(vars.drop_first() =~= Seq::<MddVariable>::empty());
        assert(spec_ddf_lines(vars) =~= spec_ddf_line(vars[0]) + spec_ddf_lines(
            vars.drop_first(),
        ));
    } else {
        lemma_ddf_lines_first(vars.drop_last());
        assert(vars.drop_last()[0] == vars[0]);
        assert(vars.drop_last().drop_first() =~= vars.drop_first().drop_last());
        assert(vars.drop_first().last() == vars.last());
        assert(spec_ddf_lines(vars) == spec_ddf_lines(vars.drop_last()) + spec_ddf_line(
            vars.last(),
        ));
        assert(spec_ddf_lines(vars.drop_first()) == spec_ddf_lines(vars.drop_first().drop_last())
            + spec_ddf_line(vars.drop_first().last()));
        assert(spec_ddf_lines(vars) =~= spec_ddf_line(vars[0]) + spec_ddf_lines(
            vars.drop_first(),
        ));
    }
}

/// Parsing the written descriptor lines gives back every descriptor.
proof fn lemma_parse_written_lines(vars: Seq<MddVariable>)
    requires
        forall|i: int| 0 <= i < vars.len() ==> writable_var(#[trigger] vars[i]),
    ensures
        spec_parse_ddf(spec_ddf_lines(vars)) == vars.map(|i: int, v: MddVariable| var_lp_written(v)),
    decreases vars.len(),
{
    let mapped = vars.map(|i: int, v: MddVariable| var_lp_written(v));
    if vars.len() == 0 {
        assert(spec_parse_ddf(spec_ddf_lines(vars)) =~= mapped);
    } else {
        let v0 = vars[0];
        lemma_ddf_lines_first(vars);
        lemma_line_shape(v0);
        lemma_line_body_no_nl(v0);
        assert(spec_ddf_lines(vars) =~= line_body(v0) + seq!['\n'] + spec_ddf_lines(
            vars.drop_first(),
        ));
        lemma_parse_split(line_body(v0), spec_ddf_lines(vars.drop_first()));
        lemma_parse_written_line(v0);
        lemma_parse_written_lines(vars.drop_first());
        assert(vars.drop_first().map(|i: int, v: MddVariable| var_lp_written(v)) =~= mapped.drop_first());
        assert(spec_parse_ddf(spec_ddf_lines(vars)) =~= mapped) by {
            assert(spec_parse_ddf(spec_ddf_lines(vars)) == seq![var_lp_written(v0)]
                + mapped.drop_first());
            assert(mapped[0] == var_lp_written(v0));
        }
    }
}

/// Round trip of the whole companion file: parsing what the writer emitted
/// yields one descriptor per written variable, with the same name, label
/// and width, and the type the writer spelled.  In particular the written
/// companion file lists exactly as many variables as the input declared.
pub proof fn lemma_companion_round_trip(
    vars: Seq<MddVariable>,
    duplicate_count: nat,
    timestamp: Seq<char>,
    record_count: nat,
)
    requires
        forall|i: int| 0 <= i < vars.len() ==> writable_var(#[trigger] vars[i]),
        no_nl(timestamp),
    ensures
        ({
            let lps = spec_parse_ddf(
                spec_ddf_text(vars, duplicate_count, timestamp, record_count),
            );
            &&& lps.len() == vars.len()
            &&& forall|i: int| 0 <= i < vars.len() ==> #[trigger] lps[i] == var_lp_written(vars[i])
        }),
{
    lemma_parse_header(duplicate_count, timestamp, record_count, spec_ddf_lines(vars));
    lemma_parse_written_lines(vars);
    let lps = spec_parse_ddf(spec_ddf_text(vars, duplicate_count, timestamp, record_count));
    let mapped = vars.map(|i: int, v: MddVariable| var_lp_written(v));
    assert(lps == mapped);
    assert forall|i: int| 0 <= i < vars.len() implies #[trigger] lps[i] == var_lp_written(
        vars[i],
    ) by {
        assert(mapped[i] == var_lp_written(vars[i]));
    }
}

} // verus!
