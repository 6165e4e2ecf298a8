//! Character-level helpers on strings: first and last occurrence of a
//! character, first occurrence of a substring, equality, and decimal
//! rendering of counters. Every path and pattern computation of the engine
//! is built from these.

use vstd::prelude::*;
use vstd::string::StrSliceExecFns;
use vstd::string::StringExecFns;

verus! {

/// Index of the first occurrence of `c` in `s`, or `s.len()` when `s` does
/// not contain `c`.
pub open spec fn find_char(s: Seq<char>, c: char) -> nat
    decreases s.len(),
{
    if s.len() == 0 {
        0
    } else if s[0] == c {
        0
    } else {
        1 + find_char(s.drop_first(), c)
    }
}

pub broadcast proof fn lemma_find_char_le_len(s: Seq<char>, c: char)
    ensures
        #[trigger] find_char(s, c) <= s.len(),
    decreases s.len(),
{
    if s.len() > 0 && s[0] != c {
        lemma_find_char_le_len(s.drop_first(), c);
    }
}

/// Index of the first occurrence of `c` in `s`, or `s.len()` when absent.
pub fn str_find_char(s: &str, c: char) -> (k: usize)
    ensures
        k == find_char(s@, c),
        k <= s@.len(),
    decreases s@.len(),
{
    proof {
        lemma_find_char_le_len(s@, c);
    }
    let n = s.unicode_len();
    if n == 0 {
        0
    } else if s.get_char(0) == c {
        0
    } else {
        let rest = s.substring_char(1, n);
        proof {
            assert(rest@ =~= s@.drop_first());
        }
        let k = str_find_char(rest, c);
        1 + k
    }
}

/// Index of the last occurrence of `c` in `s`, or `-1` when absent.
pub open spec fn last_index_of(s: Seq<char>, c: char) -> int
    decreases s.len(),
{
    if s.len() == 0 {
        -1
    } else if s[s.len() - 1] == c {
        s.len() - 1
    } else {
        last_index_of(s.drop_last(), c)
    }
}

pub broadcast proof fn lemma_last_index_of_bounds(s: Seq<char>, c: char)
    ensures
        -1 <= #[trigger] last_index_of(s, c) < s.len(),
    decreases s.len(),
{
    if s.len() > 0 && s[s.len() - 1] != c {
        lemma_last_index_of_bounds(s.drop_last(), c);
    }
}

/// Index of the last occurrence of `c` in `s`, or `None` when absent.
pub fn str_rfind_char(s: &str, c: char) -> (r: Option<usize>)
    ensures
        match r {
            Some(k) => k == last_index_of(s@, c) && k < s@.len(),
            None => last_index_of(s@, c) == -1,
        },
    decreases s@.len(),
{
    proof {
        lemma_last_index_of_bounds(s@, c);
    }
    let n = s.unicode_len();
    if n == 0 {
        None
    } else if s.get_char(n - 1) == c {
        Some(n - 1)
    } else {
        let rest = s.substring_char(0, n - 1);
        proof {
            assert(rest@ =~= s@.drop_last());
        }
        str_rfind_char(rest, c)
    }
}

/// Whether the two strings hold the same characters.
pub fn str_eq(a: &str, b: &str) -> (r: bool)
    ensures
        r == (a@ == b@),
{
    let n = a.unicode_len();
    if n != b.unicode_len() {
        return false;
    }
    let mut i: usize = 0;
    while i < n
        invariant
            i <= n,
            n == a@.len(),
            n == b@.len(),
            forall|j: int| 0 <= j < i ==> a@[j] == b@[j],
        decreases n - i,
    {
        if a.get_char(i) != b.get_char(i) {
            return false;
        }
        i = i + 1;
    }
    proof {
        assert(a@ =~= b@);
    }
    true
}

/// Index of the first occurrence of `needle` in `hay`, or `-1` when `hay`
/// holds no such run of characters.
pub open spec fn find_seq(hay: Seq<char>, needle: Seq<char>) -> int
    decreases hay.len(),
{
    if needle.len() > hay.len() {
        -1
    } else if hay.subrange(0, needle.len() as int) == needle {
        0
    } else if hay.len() == 0 {
        -1
    } else {
        let r = find_seq(hay.drop_first(), needle);
        if r < 0 {
            -1
        } else {
            1 + r
        }
    }
}

pub broadcast proof fn lemma_find_seq_bounds(hay: Seq<char>, needle: Seq<char>)
    ensures
        -1 <= #[trigger] find_seq(hay, needle),
        find_seq(hay, needle) >= 0 ==> find_seq(hay, needle) + needle.len() <= hay.len(),
    decreases hay.len(),
{
    if needle.len() <= hay.len() && hay.subrange(0, needle.len() as int) != needle
        && hay.len() > 0 {
        lemma_find_seq_bounds(hay.drop_first(), needle);
    }
}

/// Index of the first occurrence of `needle` in `hay`, or `None` when absent.
pub fn str_find(hay: &str, needle: &str) -> (r: Option<usize>)
    ensures
        match r {
            Some(k) => k == find_seq(hay@, needle@) && k + needle@.len() <= hay@.len(),
            None => find_seq(hay@, needle@) == -1,
        },
    decreases hay@.len(),
{
    proof {
        lemma_find_seq_bounds(hay@, needle@);
    }
    let hn = hay.unicode_len();
    let nn = needle.unicode_len();
    if nn > hn {
        None
    } else if str_eq(hay.substring_char(0, nn), needle) {
        Some(0)
    } else if hn == 0 {
        None
    } else {
        let rest = hay.substring_char(1, hn);
        proof {
            assert(rest@ =~= hay@.drop_first());
        }
        match str_find(rest, needle) {
            Some(k) => Some(1 + k),
            None => None,
        }
    }
}

/// The decimal digit character for a value below ten.
pub open spec fn digit_char(d: nat) -> char {
    if d == 0 {
        '0'
    } else if d == 1 {
        '1'
    } else if d == 2 {
        '2'
    } else if d == 3 {
        '3'
    } else if d == 4 {
        '4'
    } else if d == 5 {
        '5'
    } else if d == 6 {
        '6'
    } else if d == 7 {
        '7'
    } else if d == 8 {
        '8'
    } else {
        '9'
    }
}

/// The usual decimal rendering of `n`, without leading zeros.
pub open spec fn dec_str(n: nat) -> Seq<char>
    decreases n,
{
    if n < 10 {
        seq![digit_char(n)]
    } else {
        dec_str(n / 10) + seq![digit_char(n % 10)]
    }
}

pub broadcast proof fn lemma_dec_str_len(n: nat)
    ensures
        #[trigger] dec_str(n).len() >= 1,
        n >= 10 ==> dec_str(n).len() >= 2,
    decreases n,
{
    if n >= 10 {
        lemma_dec_str_len(n / 10);
    }
}

/// Two distinct values never share a decimal rendering.
pub proof fn lemma_dec_str_injective(a: nat, b: nat)
    requires
        dec_str(a) == dec_str(b),
    ensures
        a == b,
    decreases a,
{
    broadcast use lemma_dec_str_len;

    if a < 10 && b < 10 {
        assert(dec_str(a)[0] == digit_char(a));
        assert(dec_str(b)[0] == digit_char(b));
    } else if a < 10 {
        assert(dec_str(a).len() == 1);
    } else if b < 10 {
        assert(dec_str(b).len() == 1);
    } else {
        let sa = dec_str(a / 10);
        let sb = dec_str(b / 10);
        assert(dec_str(a).len() == sa.len() + 1);
        assert(dec_str(b).len() == sb.len() + 1);
        assert(sa =~= dec_str(a).subrange(0, dec_str(a).len() - 1));
        assert(sb =~= dec_str(b).subrange(0, dec_str(b).len() - 1));
        assert(sa == sb);
        lemma_dec_str_injective(a / 10, b / 10);
        assert(dec_str(a).last() == digit_char(a % 10));
        assert(dec_str(b).last() == digit_char(b % 10));
        assert(a % 10 == b % 10);
        assert(a == 10 * (a / 10) + a % 10);
        assert(b == 10 * (b / 10) + b % 10);
    }
}

/// The one-character string for a decimal digit.
fn digit_str(d: u64) -> (r: &'static str)
    requires
        d < 10,
    ensures
        r@ =~= seq![digit_char(d as nat)],
{
    proof {
        reveal_strlit("0");
        reveal_strlit("1");
        reveal_strlit("2");
        reveal_strlit("3");
        reveal_strlit("4");
        reveal_strlit("5");
        reveal_strlit("6");
        reveal_strlit("7");
        reveal_strlit("8");
        reveal_strlit("9");
    }
    if d == 0 {
        "0"
    } else if d == 1 {
        "1"
    } else if d == 2 {
        "2"
    } else if d == 3 {
        "3"
    } else if d == 4 {
        "4"
    } else if d == 5 {
        "5"
    } else if d == 6 {
        "6"
    } else if d == 7 {
        "7"
    } else if d == 8 {
        "8"
    } else {
        "9"
    }
}

/// Renders `n` in decimal.
pub fn u64_to_string(n: u64) -> (r: String)
    ensures
        r@ == dec_str(n as nat),
    decreases n,
{
    if n < 10 {
        String::from_str(digit_str(n))
    } else {
        let mut s = u64_to_string(n / 10);
        s.append(digit_str(n % 10));
        proof {
            assert(s@ =~= dec_str((n / 10) as nat) + seq![digit_char((n % 10) as nat)]);
        }
        s
    }
}

} // verus!
