//! Character- and byte-level text utilities: decimal rendering of counters,
//! ASCII case folding, substring search, and the identifier suffix that the
//! duplication engine appends to rewritten text fields, together with the
//! injectivity lemmas that make rewritten identifiers collision-free.

use vstd::prelude::*;
use vstd::arithmetic::div_mod::lemma_fundamental_div_mod;
use vstd::string::*;

verus! {

/// The decimal digit character for a value in 0..10.
pub open spec fn digit_char(d: int) -> char {
    if d == 0 {
        '0'
    } else if d == 1 {
        '1'
    } else if d == 2 {
        '2'
    } else if d == 3 {
        '3'
    } else if d == 4 {
        '4'
    } else if d == 5 {
        '5'
    } else if d == 6 {
        '6'
    } else if d == 7 {
        '7'
    } else if d == 8 {
        '8'
    } else {
        '9'
    }
}

/// Whether a character is a decimal digit.
pub open spec fn is_digit_char(c: char) -> bool {
    c == '0' || c == '1' || c == '2' || c == '3' || c == '4' || c == '5' || c == '6' || c == '7'
        || c == '8' || c == '9'
}

/// Numeric value of a decimal digit character; -1 on any other character.
pub open spec fn digit_val(c: char) -> int {
    if c == '0' {
        0
    } else if c == '1' {
        1
    } else if c == '2' {
        2
    } else if c == '3' {
        3
    } else if c == '4' {
        4
    } else if c == '5' {
        5
    } else if c == '6' {
        6
    } else if c == '7' {
        7
    } else if c == '8' {
        8
    } else if c == '9' {
        9
    } else {
        -1
    }
}

/// The decimal rendering of a natural number, most significant digit first.
pub open spec fn dec_chars(n: nat) -> Seq<char>
    decreases n,
{
    if n < 10 {
        seq![digit_char(n as int)]
    } else {
        dec_chars(n / 10).push(digit_char((n % 10) as int))
    }
}

/// The value a digit sequence denotes in base ten.
pub open spec fn chars_val(s: Seq<char>) -> int
    decreases s.len(),
{
    if s.len() == 0 {
        0
    } else {
        chars_val(s.drop_last()) * 10 + digit_val(s.last())
    }
}

/// A decimal rendering is non-empty and consists of digit characters only.
pub proof fn lemma_dec_chars_digits(n: nat)
    ensures
        dec_chars(n).len() >= 1,
        forall|i: int| 0 <= i < dec_chars(n).len() ==> is_digit_char(#[trigger] dec_chars(n)[i]),
    decreases n,
{
    if n >= 10 {
        lemma_dec_chars_digits(n / 10);
    }
}

/// Evaluating the decimal rendering of `n` gives back `n`.
pub proof fn lemma_dec_chars_val(n: nat)
    ensures
        chars_val(dec_chars(n)) == n,
    decreases n,
{
    if n < 10 {
        let s = dec_chars(n);
        assert(s.drop_last() =~= Seq::<char>::empty());
        assert(chars_val(s.drop_last()) == 0);
        assert(s.last() == digit_char(n as int));
        assert(digit_val(digit_char(n as int)) == n as int);
    } else {
        lemma_dec_chars_val(n / 10);
        let c = digit_char((n % 10) as int);
        assert(dec_chars(n / 10).push(c).drop_last() =~= dec_chars(n / 10));
        assert(dec_chars(n / 10).push(c).last() == c);
        lemma_fundamental_div_mod(n as int, 10);
    }
}

/// Two distinct natural numbers have distinct decimal renderings.
pub proof fn lemma_dec_chars_injective(a: nat, b: nat)
    requires
        dec_chars(a) == dec_chars(b),
    ensures
        a == b,
{
    lemma_dec_chars_val(a);
    lemma_dec_chars_val(b);
}

/// If two strings that each end in a non-digit marker followed by a decimal
/// rendering are equal, the renderings and the prefixes agree.
pub proof fn lemma_marked_tail_unique(a1: Seq<char>, n1: nat, a2: Seq<char>, n2: nat)
    requires
        a1 + dec_chars(n1) == a2 + dec_chars(n2),
        a1.len() > 0,
        a2.len() > 0,
        !is_digit_char(a1.last()),
        !is_digit_char(a2.last()),
    ensures
        n1 == n2,
        a1 == a2,
{
    lemma_dec_chars_digits(n1);
    lemma_dec_chars_digits(n2);
    let s = a1 + dec_chars(n1);
    let l1 = a1.len() as int;
    let k1 = dec_chars(n1).len() as int;
    let l2 = a2.len() as int;
    let k2 = dec_chars(n2).len() as int;
    assert((a1 + dec_chars(n1)).len() == l1 + k1);
    assert((a2 + dec_chars(n2)).len() == l2 + k2);
    assert(l1 + k1 == l2 + k2);
    if k1 < k2 {
        assert(s[l1 - 1] == a1.last());
        assert((a2 + dec_chars(n2))[l1 - 1] == dec_chars(n2)[l1 - 1 - l2]);
        assert(is_digit_char(dec_chars(n2)[l1 - 1 - l2]));
        assert(false);
    }
    if k2 < k1 {
        assert((a2 + dec_chars(n2))[l2 - 1] == a2.last());
        assert(s[l2 - 1] == dec_chars(n1)[l2 - 1 - l1]);
        assert(is_digit_char(dec_chars(n1)[l2 - 1 - l1]));
        assert(false);
    }
    assert(a1 =~= a2) by {
        assert forall|i: int| 0 <= i < l1 implies a1[i] == a2[i] by {
            assert((a1 + dec_chars(n1))[i] == a1[i]);
            assert((a2 + dec_chars(n2))[i] == a2[i]);
        }
    }
    assert(dec_chars(n1) =~= dec_chars(n2)) by {
        assert forall|i: int| 0 <= i < k1 implies dec_chars(n1)[i] == dec_chars(n2)[i] by {
            assert((a1 + dec_chars(n1))[l1 + i] == dec_chars(n1)[i]);
            assert((a2 + dec_chars(n2))[l1 + i] == dec_chars(n2)[i]);
        }
    }
    lemma_dec_chars_injective(n1, n2);
}

/// The suffix appended to a rewritten text identifier: an underscore-`d`
/// marker with the duplication index, then an underscore-`r` marker with the
/// record's position in the original dataset.
pub open spec fn suffix_chars(d: nat, p: nat) -> Seq<char> {
    seq!['_', 'd'] + dec_chars(d) + seq!['_', 'r'] + dec_chars(p)
}

/// Appending the suffix is injective in the original text, the duplication
/// index and the record position all at once: equal results force equal
/// arguments.
pub proof fn lemma_suffix_injective(
    t1: Seq<char>,
    d1: nat,
    p1: nat,
    t2: Seq<char>,
    d2: nat,
    p2: nat,
)
    requires
        t1 + suffix_chars(d1, p1) == t2 + suffix_chars(d2, p2),
    ensures
        d1 == d2,
        p1 == p2,
        t1 == t2,
{
    let a1 = t1 + seq!['_', 'd'] + dec_chars(d1) + seq!['_', 'r'];
    let a2 = t2 + seq!['_', 'd'] + dec_chars(d2) + seq!['_', 'r'];
    assert(t1 + suffix_chars(d1, p1) =~= a1 + dec_chars(p1));
    assert(t2 + suffix_chars(d2, p2) =~= a2 + dec_chars(p2));
    assert(a1.last() == 'r');
    assert(a2.last() == 'r');
    lemma_marked_tail_unique(a1, p1, a2, p2);
    let b1 = t1 + seq!['_', 'd'];
    let b2 = t2 + seq!['_', 'd'];
    let c1 = b1 + dec_chars(d1);
    let c2 = b2 + dec_chars(d2);
    assert(c1 =~= a1.take(a1.len() - 2));
    assert(c2 =~= a2.take(a2.len() - 2));
    assert(b1.last() == 'd');
    assert(b2.last() == 'd');
    lemma_marked_tail_unique(b1, d1, b2, d2);
    assert(t1 =~= b1.take(b1.len() - 2));
    assert(t2 =~= b2.take(b2.len() - 2));
}

/// A one-character string holding the decimal digit for `d`.
fn digit_str(d: u64) -> (s: &'static str)
    requires
        d < 10,
    ensures
        s@ == seq![digit_char(d as int)],
{
    proof {
        reveal_strlit("0");
        reveal_strlit("1");
        reveal_strlit("2");
        reveal_strlit("3");
        reveal_strlit("4");
        reveal_strlit("5");
        reveal_strlit("6");
        reveal_strlit("7");
        reveal_strlit("8");
        reveal_strlit("9");
    }
    let s = if d == 0 {
        "0"
    } else if d == 1 {
        "1"
    } else if d == 2 {
        "2"
    } else if d == 3 {
        "3"
    } else if d == 4 {
        "4"
    } else if d == 5 {
        "5"
    } else if d == 6 {
        "6"
    } else if d == 7 {
        "7"
    } else if d == 8 {
        "8"
    } else {
        "9"
    };
    proof {
        assert(s@ =~= seq![digit_char(d as int)]);
    }
    s
}

/// Renders a number in decimal.
pub fn u64_to_dec_string(n: u64) -> (s: String)
    ensures
        s@ == dec_chars(n as nat),
    decreases n,
{
    if n < 10 {
        String::from_str(digit_str(n))
    } else {
        let mut s = u64_to_dec_string(n / 10);
        s.append(digit_str(n % 10));
        s
    }
}

/// The decimal rendering of a natural number as ASCII bytes.
pub open spec fn dec_bytes(n: nat) -> Seq<u8>
    decreases n,
{
    if n < 10 {
        seq![(48 + n) as u8]
    } else {
        dec_bytes(n / 10).push((48 + n % 10) as u8)
    }
}

/// Renders a number in decimal as ASCII bytes.
pub fn u64_to_dec_bytes(n: u64) -> (v: Vec<u8>)
    ensures
        v@ == dec_bytes(n as nat),
    decreases n,
{
    if n < 10 {
        let mut v: Vec<u8> = Vec::new();
        v.push(48 + n as u8);
        proof {
            assert(v@ =~= dec_bytes(n as nat));
        }
        v
    } else {
        let mut v = u64_to_dec_bytes(n / 10);
        v.push(48 + (n % 10) as u8);
        v
    }
}

/// ASCII case folding of one character: `A`..`Z` map to `a`..`z`, every
/// other character is unchanged.
pub open spec fn lower_char(c: char) -> char {
    if 65 <= c as u32 && c as u32 <= 90 {
        ((c as u32) + 32) as char
    } else {
        c
    }
}

/// ASCII case folding of a character sequence.
pub open spec fn lower_seq(s: Seq<char>) -> Seq<char> {
    s.map(|i: int, c: char| lower_char(c))
}

/// Whether `needle` occurs as a contiguous subsequence of `hay`.
pub open spec fn contains_seq(hay: Seq<char>, needle: Seq<char>) -> bool {
    exists|i: int|
        0 <= i && i + needle.len() <= hay.len() && #[trigger] hay.subrange(i, i + needle.len())
            == needle
}

/// The characters of a string, ASCII case folded.
pub fn lower_chars(s: &str) -> (v: Vec<char>)
    ensures
        v@ == lower_seq(s@),
{
    let n = s.unicode_len();
    let mut v: Vec<char> = Vec::new();
    let mut i: usize = 0;
    while i < n
        invariant
            n == s@.len(),
            i <= n,
            v@ =~= lower_seq(s@).take(i as int),
        decreases n - i,
    {
        let c = s.get_char(i);
        let cu = c as u32;
        let lc = if 65 <= cu && cu <= 90 {
            ((c as u8) + 32) as char
        } else {
            c
        };
        proof {
            assert(lc == lower_char(c));
        }
        v.push(lc);
        i = i + 1;
    }
    proof {
        assert(v@ =~= lower_seq(s@));
    }
    v
}

/// Verified substring search: whether `needle` occurs in `hay`.
fn contains_str(hay: &Vec<char>, needle: &str) -> (r: bool)
    requires
        needle@.len() >= 1,
    ensures
        r == contains_seq(hay@, needle@),
{
    let nlen = needle.unicode_len();
    let hlen = hay.len();
    if nlen > hlen {
        return false;
    }
    let mut i: usize = 0;
    while i <= hlen - nlen
        invariant
            nlen == needle@.len(),
            hlen == hay@.len(),
            1 <= nlen <= hlen,
            i <= hlen,
            forall|k: int|
                0 <= k < i ==> #[trigger] hay@.subrange(k, k + needle@.len()) != needle@,
        decreases hlen - i,
    {
        let mut j: usize = 0;
        let mut matches = true;
        proof {
            assert(hay@.subrange(i as int, i as int) =~= needle@.take(0));
        }
        while j < nlen && matches
            invariant
                nlen == needle@.len(),
                hlen == hay@.len(),
                i + nlen <= hlen,
                j <= nlen,
                matches <==> hay@.subrange(i as int, i + j) == needle@.take(j as int),
            decreases nlen - j,
        {
            if hay[i + j] != needle.get_char(j) {
                matches = false;
                proof {
                    assert(hay@.subrange(i as int, i + j + 1)[j as int] != needle@.take(
                        j as int + 1,
                    )[j as int]);
                }
            } else {
                proof {
                    assert(hay@.subrange(i as int, i + j + 1) =~= hay@.subrange(
                        i as int,
                        i + j,
                    ).push(hay@[i + j]));
                    assert(needle@.take(j as int + 1) =~= needle@.take(j as int).push(
                        needle@[j as int],
                    ));
                }
            }
            j = j + 1;
        }
        if matches {
            proof {
                assert(hay@.subrange(i as int, i + needle@.len()) == needle@.take(
                    needle@.len() as int,
                ));
                assert(needle@.take(needle@.len() as int) =~= needle@);
            }
            return true;
        }
        proof {
            assert(hay@.subrange(i as int, i + needle@.len()) != needle@) by {
                if hay@.subrange(i as int, i + needle@.len()) == needle@ {
                    assert(hay@.subrange(i as int, i + j) =~= hay@.subrange(
                        i as int,
                        i + needle@.len(),
                    ).subrange(0, j as int));
                    assert(needle@.take(j as int) =~= needle@.subrange(0, j as int));
                    assert(false);
                }
            }
        }
        i = i + 1;
    }
    proof {
        assert forall|k: int| 0 <= k && k + needle@.len() <= hay@.len() implies #[trigger] hay@.subrange(
            k,
            k + needle@.len(),
        ) != needle@ by {
            assert(k < i);
        }
    }
    false
}

/// Whether a variable name marks an identifier-like field: its ASCII-folded
/// form contains `serial`, `id` or `unique`.
pub open spec fn spec_is_identifier_like(name: Seq<char>) -> bool {
    contains_seq(lower_seq(name), "serial"@) || contains_seq(lower_seq(name), "id"@)
        || contains_seq(lower_seq(name), "unique"@)
}

/// Decides whether a variable name marks an identifier-like field.
pub fn is_identifier_like(name: &str) -> (r: bool)
    ensures
        r == spec_is_identifier_like(name@),
{
    proof {
        reveal_strlit("serial");
        reveal_strlit("id");
        reveal_strlit("unique");
    }
    let lowered = lower_chars(name);
    contains_str(&lowered, "serial") || contains_str(&lowered, "id") || contains_str(
        &lowered,
        "unique",
    )
}

/// Builds the executable identifier suffix for a duplication index and an
/// original record position.
pub fn make_suffix(d: u32, p: usize) -> (s: String)
    ensures
        s@ == suffix_chars(d as nat, p as nat),
{
    proof {
        reveal_strlit("_d");
        reveal_strlit("_r");
    }
    let mut s = String::from_str("_d");
    let ds = u64_to_dec_string(d as u64);
    s.append(ds.as_str());
    s.append("_r");
    let ps = u64_to_dec_string(p as u64);
    s.append(ps.as_str());
    proof {
        assert(s@ =~= suffix_chars(d as nat, p as nat));
    }
    s
}

} // verus!
