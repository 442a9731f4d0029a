//! Small verified text helpers: finding a character or a substring,
//! reading an unsigned decimal number, and splitting a string into lines,
//! each with an exact character-level contract.

use vstd::prelude::*;
use vstd::string::{StrSliceExecFns, StringExecFns};

verus! {

/// The first position of `c` in `s` at or after `from`.
pub open spec fn spec_find_char(s: Seq<char>, c: char, from: int) -> Option<int>
    decreases s.len() - from,
{
    if from < 0 || from >= s.len() {
        None
    } else if s[from] == c {
        Some(from)
    } else {
        spec_find_char(s, c, from + 1)
    }
}

/// Finds the first occurrence of `c` in `s` at or after `from`, by
/// character position.
pub fn find_char(s: &str, c: char, from: usize) -> (r: Option<usize>)
    ensures
        match r {
            Some(i) => from <= i < s@.len() && s@[i as int] == c && spec_find_char(
                s@,
                c,
                from as int,
            ) == Some(i as int),
            None => spec_find_char(s@, c, from as int) is None,
        },
{
    let n = s.unicode_len();
    let mut i: usize = from;
    while i < n
        invariant
            from <= i,
            n == s@.len(),
            spec_find_char(s@, c, from as int) == spec_find_char(s@, c, i as int),
        decreases n - i,
    {
        if s.get_char(i) == c {
            return Some(i);
        }
        i = i + 1;
    }
    None
}

/// Whether `s` is one or more decimal digits and nothing else.
pub open spec fn spec_is_digits(s: Seq<char>) -> bool {
    s.len() > 0 && forall|k: int| 0 <= k < s.len() ==> '0' <= #[trigger] s[k] <= '9'
}

/// The number the digits of `s` spell, most significant first.
pub open spec fn spec_digits_value(s: Seq<char>) -> int
    decreases s.len(),
{
    if s.len() == 0 {
        0
    } else {
        spec_digits_value(s.drop_last()) * 10 + (s.last() as int - '0' as int)
    }
}

/// A digit string's value is not negative.
pub proof fn lemma_digits_value_nonneg(s: Seq<char>)
    requires
        forall|k: int| 0 <= k < s.len() ==> '0' <= #[trigger] s[k] <= '9',
    ensures
        spec_digits_value(s) >= 0,
    decreases s.len(),
{
    if s.len() > 0 {
        lemma_digits_value_nonneg(s.drop_last());
    }
}

/// A digit string's value is at least the value of any of its prefixes.
pub proof fn lemma_digits_value_prefix_le(s: Seq<char>, k: int)
    requires
        0 <= k <= s.len(),
        forall|j: int| 0 <= j < s.len() ==> '0' <= #[trigger] s[j] <= '9',
    ensures
        spec_digits_value(s.subrange(0, k)) <= spec_digits_value(s),
    decreases s.len() - k,
{
    if k < s.len() {
        lemma_digits_value_prefix_le(s, k + 1);
        let a = s.subrange(0, k);
        let b = s.subrange(0, k + 1);
        assert(b.drop_last() =~= a);
        assert(b.last() == s[k]);
        lemma_digits_value_nonneg(a);
    } else {
        assert(s.subrange(0, k) =~= s);
    }
}

/// Reads `s` as an unsigned decimal number: its value when `s` is all
/// digits and the value fits, and `None` otherwise.
pub fn parse_u31(s: &str) -> (r: Option<i32>)
    ensures
        match r {
            Some(v) => spec_is_digits(s@) && spec_digits_value(s@) == v && 0 <= v,
            None => !(spec_is_digits(s@) && spec_digits_value(s@) <= i32::MAX),
        },
{
    let n = s.unicode_len();
    if n == 0 {
        return None;
    }
    let mut acc: u64 = 0;
    let mut i: usize = 0;
    while i < n
        invariant
            i <= n,
            n == s@.len(),
            n > 0,
            acc <= i32::MAX,
            forall|j: int| 0 <= j < i ==> '0' <= #[trigger] s@[j] <= '9',
            acc == spec_digits_value(s@.subrange(0, i as int)),
        decreases n - i,
    {
        let c = s.get_char(i);
        if !(c >= '0' && c <= '9') {
            return None;
        }
        let d = (c as u32 - 48) as u64;
        acc = acc * 10 + d;
        i = i + 1;
        proof {
            let pre = s@.subrange(0, i as int);
            assert(pre.drop_last() =~= s@.subrange(0, i - 1 as int));
            assert(pre.last() == s@[i - 1 as int]);
        }
        if acc > 0x7fff_ffff {
            proof {
                if spec_is_digits(s@) {
                    lemma_digits_value_prefix_le(s@, i as int);
                }
            }
            return None;
        }
    }
    proof {
        assert(s@.subrange(0, n as int) =~= s@);
    }
    Some(acc as i32)
}

/// Whether `pat` occurs in `s` starting exactly at `i`.
pub open spec fn spec_match_at(s: Seq<char>, pat: Seq<char>, i: int) -> bool {
    0 <= i && i + pat.len() <= s.len() && s.subrange(i, i + pat.len()) == pat
}

/// The first position at or after `from` where `pat` occurs in `s`.
pub open spec fn spec_find_str(s: Seq<char>, pat: Seq<char>, from: int) -> Option<int>
    decreases s.len() - from + 1,
{
    if from < 0 || from + pat.len() > s.len() {
        None
    } else if spec_match_at(s, pat, from) {
        Some(from)
    } else {
        spec_find_str(s, pat, from + 1)
    }
}

/// Finds the first occurrence of `pat` in `s`, by character position.
pub fn find_str(s: &str, pat: &str) -> (r: Option<usize>)
    ensures
        match r {
            Some(i) => spec_find_str(s@, pat@, 0) == Some(i as int),
            None => spec_find_str(s@, pat@, 0) is None,
        },
{
    let n = s.unicode_len();
    let m = pat.unicode_len();
    if m > n {
        return None;
    }
    if m == 0 {
        proof {
            assert(s@.subrange(0, 0) =~= pat@);
        }
        return Some(0);
    }
    let mut i: usize = 0;
    while i <= n - m
        invariant
            0 < m <= n,
            n == s@.len(),
            m == pat@.len(),
            i <= n - m + 1,
            spec_find_str(s@, pat@, 0) == spec_find_str(s@, pat@, i as int),
        decreases n - i,
    {
        let mut k: usize = 0;
        let mut matches_here = true;
        while k < m && matches_here
            invariant
                k <= m,
                i + m <= n,
                n == s@.len(),
                m == pat@.len(),
                matches_here ==> forall|j: int| 0 <= j < k ==> s@[i + j] == pat@[j],
                !matches_here ==> !spec_match_at(s@, pat@, i as int),
            decreases m - k,
        {
            if s.get_char(i + k) != pat.get_char(k) {
                proof {
                    assert(!(s@.subrange(i as int, i + pat@.len()) == pat@)) by {
                        if s@.subrange(i as int, i + pat@.len()) == pat@ {
                            let kk = k as int;
                            assert(s@.subrange(i as int, i + pat@.len())[kk] == pat@[kk]);
                        }
                    }
                }
                matches_here = false;
            }
            k = k + 1;
        }
        if matches_here {
            proof {
                assert(s@.subrange(i as int, i + pat@.len()) =~= pat@);
            }
            return Some(i);
        }
        i = i + 1;
    }
    None
}

/// A found substring position lies in range and matches there.
pub proof fn lemma_find_str_some(s: Seq<char>, pat: Seq<char>, from: int)
    requires
        spec_find_str(s, pat, from) is Some,
    ensures
        from <= spec_find_str(s, pat, from)->0,
        spec_find_str(s, pat, from)->0 + pat.len() <= s.len(),
        spec_match_at(s, pat, spec_find_str(s, pat, from)->0),
    decreases s.len() - from + 1,
{
    if !(from < 0 || from + pat.len() > s.len()) && !spec_match_at(s, pat, from) {
        lemma_find_str_some(s, pat, from + 1);
    }
}

/// A found character lies at or after the start of the search, inside the
/// string, and is the character searched for.
pub proof fn lemma_find_char_some(s: Seq<char>, c: char, from: int)
    requires
        spec_find_char(s, c, from) is Some,
    ensures
        from <= spec_find_char(s, c, from)->0 < s.len(),
        s[spec_find_char(s, c, from)->0] == c,
    decreases s.len() - from,
{
    if !(from < 0 || from >= s.len()) && s[from] != c {
        lemma_find_char_some(s, c, from + 1);
    }
}

/// The views of a sequence of strings.
pub open spec fn strs_view(vs: Seq<String>) -> Seq<Seq<char>> {
    Seq::new(vs.len(), |k: int| vs[k]@)
}

/// The lines of `s` from position `pos` on: split at every line feed, with
/// a carriage return immediately before a line feed stripped, and no empty
/// line after a final line feed.
pub open spec fn spec_lines_from(s: Seq<char>, pos: int) -> Seq<Seq<char>>
    decreases s.len() - pos,
    via spec_lines_from_decreases
{
    if pos < 0 || pos >= s.len() {
        Seq::empty()
    } else {
        match spec_find_char(s, '\n', pos) {
            None => seq![s.subrange(pos, s.len() as int)],
            Some(i) => seq![
                s.subrange(pos, if i > pos && s[i - 1] == '\r' { i - 1 } else { i }),
            ] + spec_lines_from(s, i + 1),
        }
    }
}

#[via_fn]
proof fn spec_lines_from_decreases(s: Seq<char>, pos: int) {
    if 0 <= pos < s.len() {
        if spec_find_char(s, '\n', pos) is Some {
            lemma_find_char_some(s, '\n', pos);
        }
    }
}

/// Splits `s` into lines, as `spec_lines_from` describes from position 0.
pub fn split_lines(s: &str) -> (r: Vec<String>)
    ensures
        strs_view(r@) == spec_lines_from(s@, 0),
{
    let n = s.unicode_len();
    let mut acc: Vec<String> = Vec::new();
    proof {
        assert(strs_view(acc@) =~= Seq::<Seq<char>>::empty());
    }
    let mut pos: usize = 0;
    while pos < n
        invariant
            pos <= n,
            n == s@.len(),
            spec_lines_from(s@, 0) =~= strs_view(acc@) + spec_lines_from(s@, pos as int),
        decreases n - pos,
    {
        let ghost before = acc@;
        match find_char(s, '\n', pos) {
            None => {
                acc.push(String::from_str(s.substring_char(pos, n)));
                proof {
                    assert(strs_view(acc@) =~= strs_view(before) + seq![
                        s@.subrange(pos as int, n as int),
                    ]);
                    assert(strs_view(acc@) + spec_lines_from(s@, n as int) =~= strs_view(before)
                        + spec_lines_from(s@, pos as int));
                }
                pos = n;
            },
            Some(i) => {
                let cut = if i > pos && s.get_char(i - 1) == '\r' {
                    i - 1
                } else {
                    i
                };
                acc.push(String::from_str(s.substring_char(pos, cut)));
                proof {
                    assert(strs_view(acc@) =~= strs_view(before) + seq![
                        s@.subrange(pos as int, cut as int),
                    ]);
                    assert(strs_view(acc@) + spec_lines_from(s@, i + 1) =~= strs_view(before)
                        + spec_lines_from(s@, pos as int));
                }
                pos = i + 1;
            },
        }
    }
    proof {
        assert(strs_view(acc@) + spec_lines_from(s@, pos as int) =~= strs_view(acc@));
    }
    acc
}

} // verus!

verus! {

/// Whether `pat` occurs anywhere in `s`.
pub open spec fn spec_contains(s: Seq<char>, pat: Seq<char>) -> bool {
    spec_find_str(s, pat, 0) is Some
}

/// Whether `pat` occurs anywhere in `s`, by character comparison.
pub fn contains_str(s: &str, pat: &str) -> (r: bool)
    ensures
        r == spec_contains(s@, pat@),
{
    match find_str(s, pat) {
        Some(_) => true,
        None => false,
    }
}

} // verus!
