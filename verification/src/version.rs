//! Version identifiers for local save files.
//!
//! A save file name encodes a version as `...v<digits>...`: the numeric
//! suffix after the last `v` is the version number. Parsing never fails the
//! caller: a malformed identifier defaults to version `1`, and the latest
//! version of an empty identifier set is the fallback identifier `"1"`.

use vstd::prelude::*;

verus! {

/// The version number a malformed identifier falls back to.
pub const FALLBACK_VERSION: u32 = 1;

pub open spec fn spec_is_digit(c: char) -> bool {
    48 <= c as u32 <= 57
}

pub open spec fn spec_all_digits(s: Seq<char>) -> bool {
    forall|i: int| 0 <= i < s.len() ==> spec_is_digit(#[trigger] s[i])
}

/// The natural number written by a non-empty sequence of decimal digits.
pub open spec fn spec_digits_value(s: Seq<char>) -> nat
    decreases s.len(),
{
    if s.len() == 0 {
        0
    } else {
        (spec_digits_value(s.drop_last()) * 10 + (s.last() as u32 - 48)) as nat
    }
}

/// The part of an identifier after its last `v`; the whole identifier when
/// it contains no `v`.
pub open spec fn spec_suffix_after_last_v(s: Seq<char>) -> Seq<char>
    decreases s.len(),
{
    if s.len() == 0 {
        s
    } else if s.last() == 'v' {
        Seq::<char>::empty()
    } else {
        spec_suffix_after_last_v(s.drop_last()).push(s.last())
    }
}

/// The numeric version an identifier denotes: the decimal value of the
/// suffix after the last `v` when that suffix is a non-empty digit string
/// whose value fits in 32 bits, and the fallback `1` otherwise.
pub open spec fn spec_parse_version(s: Seq<char>) -> u32 {
    let t = spec_suffix_after_last_v(s);
    if t.len() > 0 && spec_all_digits(t) && spec_digits_value(t) <= u32::MAX {
        spec_digits_value(t) as u32
    } else {
        FALLBACK_VERSION
    }
}

/// The suffix after the last `v` starts right after the last position
/// holding a `v`, and at the front when no position does.
proof fn lemma_suffix_characterization(s: Seq<char>, k: int)
    requires
        0 <= k <= s.len(),
        forall|i: int| k <= i < s.len() ==> s[i] != 'v',
        k == 0 || s[k - 1] == 'v',
    ensures
        spec_suffix_after_last_v(s) == s.subrange(k, s.len() as int),
    decreases s.len(),
{
    if s.len() == 0 {
        assert(spec_suffix_after_last_v(s) =~= s.subrange(0, 0));
    } else if s.last() == 'v' {
        assert(k == s.len());
        assert(spec_suffix_after_last_v(s) =~= s.subrange(k, s.len() as int));
    } else {
        assert(k < s.len());
        lemma_suffix_characterization(s.drop_last(), k);
        assert(spec_suffix_after_last_v(s) =~= s.subrange(k, s.len() as int));
    }
}

/// Parse the numeric version out of one identifier.
///
/// Total over all identifiers: a suffix that is empty, holds a non-digit,
/// or overflows 32 bits yields the fallback version `1`.
pub fn parse_version(s: &str) -> (v: u32)
    ensures
        v == spec_parse_version(s@),
{
    let n = s.unicode_len();
    // find where the suffix after the last 'v' starts
    let mut start: usize = n;
    let mut found: bool = false;
    while start > 0 && !found
        invariant
            start <= n,
            n == s@.len(),
            forall|i: int| start <= i < n ==> s@[i] != 'v',
            found ==> start > 0 && s@[start - 1] == 'v',
        decreases start + if found { 0int } else { 1int },
    {
        if s.get_char(start - 1) == 'v' {
            found = true;
        } else {
            start = start - 1;
        }
    }
    proof {
        lemma_suffix_characterization(s@, start as int);
    }
    let ghost t = spec_suffix_after_last_v(s@);
    if start == n {
        // empty suffix: the identifier ends in 'v' or is empty
        return FALLBACK_VERSION;
    }
    let mut val: u64 = 0;
    let mut i: usize = start;
    while i < n
        invariant
            start <= i <= n,
            start < n,
            n == s@.len(),
            t == spec_suffix_after_last_v(s@),
            t == s@.subrange(start as int, n as int),
            spec_all_digits(s@.subrange(start as int, i as int)),
            val == spec_digits_value(s@.subrange(start as int, i as int)),
            val <= u32::MAX,
        decreases n - i,
    {
        let c = s.get_char(i);
        let code = c as u32;
        if code < 48 || code > 57 {
            proof {
                assert(t[i - start] == c);
                assert(!spec_all_digits(t));
            }
            return FALLBACK_VERSION;
        }
        let d: u64 = (code as u64) - 48;
        let next: u64 = val * 10 + d;
        proof {
            assert(s@.subrange(start as int, i + 1 as int).drop_last() =~= s@.subrange(
                start as int,
                i as int,
            ));
            assert(next == spec_digits_value(s@.subrange(start as int, i + 1 as int)));
        }
        if next > 0xffff_ffff {
            // the digit string overflows a 32-bit version number
            proof {
                if spec_all_digits(t) {
                    lemma_digits_value_monotone(t, i + 1 - start);
                    assert(t.subrange(0, i + 1 - start) =~= s@.subrange(
                        start as int,
                        i + 1 as int,
                    ));
                    assert(spec_digits_value(t) > u32::MAX);
                }
            }
            return FALLBACK_VERSION;
        }
        val = next;
        i = i + 1;
    }
    proof {
        assert(s@.subrange(start as int, n as int) =~= t);
    }
    val as u32
}

/// A digit string is worth at least any of its prefixes.
proof fn lemma_digits_value_monotone(s: Seq<char>, k: int)
    requires
        0 <= k <= s.len(),
        spec_all_digits(s),
    ensures
        spec_digits_value(s) >= spec_digits_value(s.subrange(0, k)),
    decreases s.len() - k,
{
    if k < s.len() {
        lemma_digits_value_monotone(s, k + 1);
        assert(s.subrange(0, k + 1).drop_last() =~= s.subrange(0, k));
        assert(spec_digits_value(s.subrange(0, k + 1)) >= spec_digits_value(s.subrange(0, k)));
    } else {
        assert(s.subrange(0, k) =~= s);
    }
}

/// Pick the latest version identifier out of a set of save-file names:
/// the first one whose parsed numeric version is maximal. An empty set
/// yields the fallback identifier `"1"`.
pub fn latest_version(files: &Vec<String>) -> (r: String)
    ensures
        files@.len() == 0 ==> r@ == "1"@,
        files@.len() > 0 ==> exists|i: int|
            {
                &&& 0 <= i < files@.len()
                &&& r@ == #[trigger] files@[i]@
                &&& forall|j: int|
                    0 <= j < files@.len() ==> spec_parse_version(#[trigger] files@[j]@)
                        <= spec_parse_version(files@[i]@)
                &&& forall|j: int|
                    0 <= j < i ==> spec_parse_version(#[trigger] files@[j]@) < spec_parse_version(
                        files@[i]@,
                    )
            },
{
    if files.len() == 0 {
        return String::from_str("1");
    }
    let mut best: usize = 0;
    let mut best_val: u32 = parse_version(files[0].as_str());
    let mut k: usize = 1;
    while k < files.len()
        invariant
            1 <= files@.len(),
            best < k <= files@.len(),
            best_val == spec_parse_version(files@[best as int]@),
            forall|j: int| 0 <= j < k ==> spec_parse_version(#[trigger] files@[j]@) <= best_val,
            forall|j: int| 0 <= j < best ==> spec_parse_version(#[trigger] files@[j]@) < best_val,
        decreases files@.len() - k,
    {
        let v = parse_version(files[k].as_str());
        if v > best_val {
            best = k;
            best_val = v;
        }
        k = k + 1;
    }
    files[best].clone()
}

} // verus!
