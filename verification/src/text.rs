//! Verified helpers for scanning character sequences: pattern occurrence,
//! first-occurrence search, and path joining.

use vstd::prelude::*;
use vstd::string::*;

verus! {

/// True when `pat` occurs in `s` starting at position `i`.
pub open spec fn occurs_at(s: Seq<char>, pat: Seq<char>, i: int) -> bool {
    0 <= i && i + pat.len() <= s.len() && s.subrange(i, i + pat.len()) == pat
}

/// True when `p` is a prefix of `s`.
pub open spec fn has_prefix(s: Seq<char>, p: Seq<char>) -> bool {
    occurs_at(s, p, 0)
}

/// Position of the first occurrence of `pat` in `s` at or after `from`.
pub open spec fn find_from(s: Seq<char>, pat: Seq<char>, from: nat) -> Option<nat>
    decreases s.len() - from,
{
    if from + pat.len() > s.len() {
        None
    } else if pat.len() == 0 {
        Some(from)
    } else if occurs_at(s, pat, from as int) {
        Some(from)
    } else {
        find_from(s, pat, (from + 1) as nat)
    }
}

/// Checks whether the characters of `pat` appear in `s` at position `i`.
pub fn match_at(s: &str, i: usize, pat: &Vec<char>) -> (b: bool)
    requires
        i + pat@.len() <= s@.len(),
        i + pat@.len() <= usize::MAX,
    ensures
        b == occurs_at(s@, pat@, i as int),
{
    let m: usize = pat.len();
    let mut k: usize = 0;
    while k < m
        invariant
            k <= m,
            m == pat@.len(),
            i + m <= s@.len(),
            i + m <= usize::MAX,
            forall|j: int| 0 <= j < k ==> s@[i + j] == pat@[j],
        decreases m - k,
    {
        if s.get_char(i + k) != pat[k] {
            proof {
                assert(s@.subrange(i as int, i + m)[k as int] == s@[i + k]);
            }
            return false;
        }
        k += 1;
    }
    proof {
        assert(s@.subrange(i as int, i + m) =~= pat@);
    }
    true
}

/// Finds the first occurrence of `pat` in `s` at or after `from`.
pub fn find_pattern(s: &str, from: usize, pat: &Vec<char>) -> (r: Option<usize>)
    requires
        from <= s@.len(),
    ensures
        match r {
            Some(i) => find_from(s@, pat@, from as nat) == Some(i as nat)
                && occurs_at(s@, pat@, i as int) && from <= i,
            None => find_from(s@, pat@, from as nat) is None,
        },
{
    let n: usize = s.unicode_len();
    let m: usize = pat.len();
    let mut i: usize = from;
    loop
        invariant
            from <= i <= n,
            n == s@.len(),
            m == pat@.len(),
            find_from(s@, pat@, from as nat) == find_from(s@, pat@, i as nat),
        decreases n - i,
    {
        if m > n - i {
            return None;
        }
        if match_at(s, i, pat) {
            return Some(i);
        }
        proof {
            if m == 0 {
                assert(s@.subrange(i as int, i as int) =~= pat@);
            }
        }
        i += 1;
    }
}

/// Reports whether `c` occurs in `s`.
pub fn str_contains_char(s: &str, c: char) -> (b: bool)
    ensures
        b == s@.contains(c),
{
    let n: usize = s.unicode_len();
    let mut i: usize = 0;
    while i < n
        invariant
            i <= n,
            n == s@.len(),
            forall|j: int| 0 <= j < i ==> s@[j] != c,
        decreases n - i,
    {
        if s.get_char(i) == c {
            proof {
                assert(s@[i as int] == c);
            }
            return true;
        }
        i += 1;
    }
    false
}

/// Compares a string with a sequence of characters.
pub fn str_eq_pat(s: &str, pat: &Vec<char>) -> (b: bool)
    ensures
        b == (s@ == pat@),
{
    let n: usize = s.unicode_len();
    if n != pat.len() {
        return false;
    }
    let r = match_at(s, 0, pat);
    proof {
        assert(s@.subrange(0, n as int) =~= s@);
    }
    r
}

/// The views of a sequence of strings.
pub open spec fn string_seq_view(s: Seq<String>) -> Seq<Seq<char>> {
    Seq::new(s.len(), |i: int| s[i]@)
}

/// Reports whether `s` occurs among the strings of `v`.
pub fn contains_string(v: &Vec<String>, s: &String) -> (b: bool)
    ensures
        b == string_seq_view(v@).contains(s@),
{
    let n: usize = v.len();
    let mut i: usize = 0;
    while i < n
        invariant
            i <= n,
            n == v@.len(),
            forall|j: int| 0 <= j < i ==> string_seq_view(v@)[j] != s@,
        decreases n - i,
    {
        if v[i] == *s {
            proof {
                assert(string_seq_view(v@)[i as int] == s@);
            }
            return true;
        }
        i += 1;
    }
    proof {
        assert forall|j: int|
            0 <= j < string_seq_view(v@).len() implies string_seq_view(v@)[j] != s@ by {}
    }
    false
}

/// A base directory joined with a relative reference, in the manner of a
/// filesystem path join: an absolute reference replaces the base, and a
/// separator is inserted only when the base does not already end in one.
pub open spec fn joined_path(base: Seq<char>, rel: Seq<char>) -> Seq<char> {
    if rel.len() > 0 && rel[0] == '/' {
        rel
    } else if base.len() == 0 {
        rel
    } else if base[base.len() - 1] == '/' {
        base + rel
    } else {
        base + seq!['/'] + rel
    }
}

/// Joins a base directory and a relative reference into one path.
pub fn join_path(base: &str, rel: &str) -> (r: String)
    ensures
        r@ == joined_path(base@, rel@),
{
    let rn: usize = rel.unicode_len();
    if rn > 0 && rel.get_char(0) == '/' {
        return rel.to_owned();
    }
    let bn: usize = base.unicode_len();
    if bn == 0 {
        return rel.to_owned();
    }
    let mut out = base.to_owned();
    if base.get_char(bn - 1) != '/' {
        out.append("/");
        proof {
            reveal_strlit("/");
            assert("/"@ =~= seq!['/']);
        }
    }
    out.append(rel);
    proof {
        assert(out@ =~= joined_path(base@, rel@));
    }
    out
}

} // verus!
