//! Character-sequence predicates (prefix, suffix, substring) with their
//! executable checks, and decimal rendering of integers.

use vstd::prelude::*;
use vstd::string::StrSliceExecFns;
use vstd::string::StringExecFns;

verus! {

/// `p` is an initial run of `s`.
pub open spec fn seq_is_prefix(p: Seq<char>, s: Seq<char>) -> bool {
    p.len() <= s.len() && s.subrange(0, p.len() as int) == p
}

/// `p` is a final run of `s`.
pub open spec fn seq_is_suffix(p: Seq<char>, s: Seq<char>) -> bool {
    p.len() <= s.len() && s.subrange(s.len() - p.len(), s.len() as int) == p
}

/// `p` occurs somewhere inside `s`.
pub open spec fn seq_contains_sub(p: Seq<char>, s: Seq<char>) -> bool {
    exists|i: int|
        0 <= i <= s.len() - p.len() && #[trigger] s.subrange(i, i + p.len() as int) == p
}

/// Character-for-character equality of two string slices.
pub fn str_eq(a: &str, b: &str) -> (r: bool)
    ensures
        r == (a@ == b@),
{
    let a_len: usize = a.unicode_len();
    let b_len: usize = b.unicode_len();
    if a_len != b_len {
        assert(a@ != b@) by {
            assert(a@.len() != b@.len());
        }
        return false;
    }
    let mut i: usize = 0;
    while i < a_len
        invariant
            a_len == a@.len(),
            b_len == b@.len(),
            a_len == b_len,
            0 <= i <= a_len,
            forall|j: int| 0 <= j < i ==> a@[j] == b@[j],
        decreases a_len - i,
    {
        if a.get_char(i) != b.get_char(i) {
            return false;
        }
        i += 1;
    }
    proof {
        assert(a@ =~= b@);
    }
    true
}

/// Whether `p` matches `s` at character offset `off`.
fn matches_at(s: &str, p: &str, off: usize) -> (r: bool)
    requires
        off + p@.len() <= s@.len(),
    ensures
        r == (s@.subrange(off as int, off + p@.len() as int) == p@),
{
    let s_len: usize = s.unicode_len();
    let p_len: usize = p.unicode_len();
    let mut i: usize = 0;
    while i < p_len
        invariant
            s_len == s@.len(),
            p_len == p@.len(),
            off + p_len <= s_len,
            0 <= i <= p_len,
            forall|j: int| 0 <= j < i ==> s@[off + j] == p@[j],
        decreases p_len - i,
    {
        if s.get_char(off + i) != p.get_char(i) {
            proof {
                let w = i as int;
                assert(s@.subrange(off as int, off + p@.len() as int)[w] == s@[off + w]);
            }
            return false;
        }
        i += 1;
    }
    proof {
        assert(s@.subrange(off as int, off + p@.len() as int) =~= p@);
    }
    true
}

/// `s` starts with `p`.
pub fn str_starts_with(s: &str, p: &str) -> (r: bool)
    ensures
        r == seq_is_prefix(p@, s@),
{
    let s_len: usize = s.unicode_len();
    let p_len: usize = p.unicode_len();
    if p_len > s_len {
        return false;
    }
    matches_at(s, p, 0)
}

/// `s` ends with `p`.
pub fn str_ends_with(s: &str, p: &str) -> (r: bool)
    ensures
        r == seq_is_suffix(p@, s@),
{
    let s_len: usize = s.unicode_len();
    let p_len: usize = p.unicode_len();
    if p_len > s_len {
        return false;
    }
    matches_at(s, p, s_len - p_len)
}

/// `s` holds `p` as a substring.
pub fn str_contains(s: &str, p: &str) -> (r: bool)
    ensures
        r == seq_contains_sub(p@, s@),
{
    let s_len: usize = s.unicode_len();
    let p_len: usize = p.unicode_len();
    if p_len > s_len {
        assert(!seq_contains_sub(p@, s@));
        return false;
    }
    if p_len == 0 {
        proof {
            let w: int = 0;
            assert(s@.subrange(w, w + p@.len() as int) =~= p@);
        }
        return true;
    }
    let last: usize = s_len - p_len;
    let mut off: usize = 0;
    while off <= last
        invariant
            s_len == s@.len(),
            p_len == p@.len(),
            1 <= p_len <= s_len,
            last == s_len - p_len,
            0 <= off <= last + 1,
            forall|j: int|
                0 <= j < off ==> #[trigger] s@.subrange(j, j + p@.len() as int) != p@,
        decreases last + 1 - off,
    {
        if matches_at(s, p, off) {
            assert(seq_contains_sub(p@, s@));
            return true;
        }
        off += 1;
    }
    proof {
        vstd::assert_by_contradiction!(!seq_contains_sub(p@, s@), {
            let i = choose|i: int|
                0 <= i <= s@.len() - p@.len() && #[trigger] s@.subrange(i, i + p@.len() as int)
                    == p@;
            assert(s@.subrange(i, i + p@.len() as int) != p@);
        });
    }
    false
}

/// The decimal digit character for `d`.
pub open spec fn spec_digit(d: int) -> char {
    if d == 0 {
        '0'
    } else if d == 1 {
        '1'
    } else if d == 2 {
        '2'
    } else if d == 3 {
        '3'
    } else if d == 4 {
        '4'
    } else if d == 5 {
        '5'
    } else if d == 6 {
        '6'
    } else if d == 7 {
        '7'
    } else if d == 8 {
        '8'
    } else {
        '9'
    }
}

/// The decimal rendering of a non-negative integer, most significant
/// digit first, with no leading zero except for zero itself.
pub open spec fn spec_dec_nat(n: nat) -> Seq<char>
    decreases n,
{
    if n < 10 {
        seq![spec_digit(n as int)]
    } else {
        spec_dec_nat(n / 10) + seq![spec_digit((n % 10) as int)]
    }
}

/// The decimal rendering of an integer, with a leading minus sign when
/// negative.
pub open spec fn spec_dec_int(n: int) -> Seq<char> {
    if n < 0 {
        seq!['-'] + spec_dec_nat((-n) as nat)
    } else {
        spec_dec_nat(n as nat)
    }
}

fn digit_str(d: u64) -> (r: &'static str)
    requires
        d < 10,
    ensures
        r@ =~= seq![spec_digit(d as int)],
{
    proof {
        reveal_strlit("0");
        reveal_strlit("1");
        reveal_strlit("2");
        reveal_strlit("3");
        reveal_strlit("4");
        reveal_strlit("5");
        reveal_strlit("6");
        reveal_strlit("7");
        reveal_strlit("8");
        reveal_strlit("9");
    }
    match d {
        0 => "0",
        1 => "1",
        2 => "2",
        3 => "3",
        4 => "4",
        5 => "5",
        6 => "6",
        7 => "7",
        8 => "8",
        _ => "9",
    }
}

/// Renders `n` in decimal.
pub fn u64_to_string(n: u64) -> (r: String)
    ensures
        r@ == spec_dec_nat(n as nat),
    decreases n,
{
    if n < 10 {
        String::from_str(digit_str(n))
    } else {
        u64_to_string(n / 10).concat(digit_str(n % 10))
    }
}

/// Renders `n` in decimal, signed.
pub fn i64_to_string(n: i64) -> (r: String)
    ensures
        r@ == spec_dec_int(n as int),
{
    if n >= 0 {
        u64_to_string(n as u64)
    } else {
        let m: u64 = ((-(n + 1)) as u64) + 1;
        assert(m == -(n as int));
        proof {
            reveal_strlit("-");
        }
        let s = String::from_str("-").concat(u64_to_string(m).as_str());
        proof {
            assert(s@ =~= seq!['-'] + spec_dec_nat((-(n as int)) as nat));
        }
        s
    }
}

} // verus!
