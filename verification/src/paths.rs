//! Path-string derivations: the companion file path is derived
//! deterministically from the binary dataset path by swapping the extension,
//! and a job's base name is the dataset file's stem.  Both are pure string
//! computations; whether the files exist is the caller's to find out.

use vstd::prelude::*;
use vstd::string::*;

verus! {

/// Whether a character separates path components.
pub open spec fn is_sep_char(c: char) -> bool {
    c == '/' || c == '\\'
}

/// Index of the last path separator, or -1 when none occurs.
pub open spec fn last_sep(s: Seq<char>) -> int
    decreases s.len(),
{
    if s.len() == 0 {
        -1
    } else if is_sep_char(s.last()) {
        s.len() - 1
    } else {
        last_sep(s.drop_last())
    }
}

/// Index of the last dot, or -1 when none occurs.
pub open spec fn last_dot(s: Seq<char>) -> int
    decreases s.len(),
{
    if s.len() == 0 {
        -1
    } else if s.last() == '.' {
        s.len() - 1
    } else {
        last_dot(s.drop_last())
    }
}

/// Index of the dot that starts the extension, or -1 when the final path
/// component has none.  A dot that opens the component names a hidden file,
/// not an extension.
pub open spec fn ext_dot(s: Seq<char>) -> int {
    if last_dot(s) > last_sep(s) + 1 {
        last_dot(s)
    } else {
        -1
    }
}

/// The companion file path: the dataset path with its extension replaced by
/// `ddf`, or with `.ddf` appended when it has no extension.
pub open spec fn spec_ddf_path(s: Seq<char>) -> Seq<char> {
    if ext_dot(s) >= 0 {
        s.take(ext_dot(s)) + ".ddf"@
    } else {
        s + ".ddf"@
    }
}

/// The base name of a path: its final component without the extension.
pub open spec fn spec_base_name(s: Seq<char>) -> Seq<char> {
    if ext_dot(s) >= 0 {
        s.subrange(last_sep(s) + 1, ext_dot(s))
    } else {
        s.skip(last_sep(s) + 1)
    }
}

proof fn lemma_last_sep_at(s: Seq<char>, m: int)
    requires
        -1 <= m < s.len(),
        m >= 0 ==> is_sep_char(s[m]),
        forall|j: int| m < j < s.len() ==> !is_sep_char(#[trigger] s[j]),
    ensures
        last_sep(s) == m,
    decreases s.len(),
{
    if s.len() > 0 && !is_sep_char(s.last()) {
        lemma_last_sep_at(s.drop_last(), m);
    }
}

proof fn lemma_last_dot_at(s: Seq<char>, m: int)
    requires
        -1 <= m < s.len(),
        m >= 0 ==> s[m] == '.',
        forall|j: int| m < j < s.len() ==> #[trigger] s[j] != '.',
    ensures
        last_dot(s) == m,
    decreases s.len(),
{
    if s.len() > 0 && s.last() != '.' {
        lemma_last_dot_at(s.drop_last(), m);
    }
}

/// Scans a path once for the last separator and the last dot; each position
/// is reported with a flag saying whether one occurs at all.
fn scan_path(s: &str) -> (r: (bool, usize, bool, usize))
    ensures
        r.0 ==> r.1 < s@.len() && last_sep(s@) == r.1,
        !r.0 ==> last_sep(s@) == -1,
        r.2 ==> r.3 < s@.len() && last_dot(s@) == r.3,
        !r.2 ==> last_dot(s@) == -1,
{
    let n = s.unicode_len();
    let mut has_sep = false;
    let mut sep: usize = 0;
    let mut has_dot = false;
    let mut dot: usize = 0;
    let mut i: usize = 0;
    while i < n
        invariant
            n == s@.len(),
            i <= n,
            has_sep ==> sep < i && is_sep_char(s@[sep as int]),
            has_dot ==> dot < i && s@[dot as int] == '.',
            forall|j: int|
                (if has_sep {
                    sep < j < i
                } else {
                    0 <= j < i
                }) ==> !is_sep_char(#[trigger] s@[j]),
            forall|j: int|
                (if has_dot {
                    dot < j < i
                } else {
                    0 <= j < i
                }) ==> #[trigger] s@[j] != '.',
        decreases n - i,
    {
        let c = s.get_char(i);
        if c == '/' || c == '\\' {
            has_sep = true;
            sep = i;
        }
        if c == '.' {
            has_dot = true;
            dot = i;
        }
        i = i + 1;
    }
    proof {
        if has_sep {
            lemma_last_sep_at(s@, sep as int);
        } else {
            lemma_last_sep_at(s@, -1);
        }
        if has_dot {
            lemma_last_dot_at(s@, dot as int);
        } else {
            lemma_last_dot_at(s@, -1);
        }
    }
    (has_sep, sep, has_dot, dot)
}

/// Derives the companion file path from the dataset file path.
pub fn derive_ddf_path(mdd_path: &str) -> (r: String)
    ensures
        r@ == spec_ddf_path(mdd_path@),
{
    let n = mdd_path.unicode_len();
    let (has_sep, sep, has_dot, dot) = scan_path(mdd_path);
    proof {
        assert(has_sep ==> sep < n);
    }
    let has_ext = has_dot && (!has_sep || dot > sep + 1) && (has_sep || dot > 0);
    proof {
        assert(has_ext == (ext_dot(mdd_path@) >= 0));
    }
    if has_ext {
        let stem = mdd_path.substring_char(0, dot);
        let mut r = String::from_str(stem);
        r.append(".ddf");
        proof {
            assert(mdd_path@.take(dot as int) =~= mdd_path@.subrange(0, dot as int));
        }
        r
    } else {
        let mut r = String::from_str(mdd_path);
        r.append(".ddf");
        r
    }
}

/// The base name of the dataset file: its final path component without the
/// extension.
pub fn base_name_of(path: &str) -> (r: String)
    ensures
        r@ == spec_base_name(path@),
{
    let n = path.unicode_len();
    let (has_sep, sep, has_dot, dot) = scan_path(path);
    let start = if has_sep {
        sep + 1
    } else {
        0
    };
    let has_ext = has_dot && (!has_sep || dot > sep + 1) && (has_sep || dot > 0);
    proof {
        assert(has_ext == (ext_dot(path@) >= 0));
        assert(start == last_sep(path@) + 1);
    }
    if has_ext {
        let stem = path.substring_char(start, dot);
        String::from_str(stem)
    } else {
        let tail = path.substring_char(start, n);
        proof {
            assert(path@.skip(start as int) =~= path@.subrange(start as int, n as int));
        }
        String::from_str(tail)
    }
}

} // verus!
