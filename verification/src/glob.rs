//! The narrow wildcard matcher of the engine. A pattern is in glob mode as
//! soon as it holds `*`, `?` or `[`, but only `*` is given meaning: the
//! candidate name must start with the text before the first `*`, each later
//! literal segment must be found in order in the unconsumed remainder (first
//! occurrence), and the match succeeds only if the pattern ends with `*` or
//! the remainder is empty. `?` and `[` stay literal characters.

use vstd::prelude::*;
use vstd::string::StrSliceExecFns;
use crate::strutil::{find_char, find_seq, str_eq, str_find, str_find_char};
use crate::strutil::{lemma_find_char_le_len, lemma_find_seq_bounds};

verus! {

broadcast use lemma_find_char_le_len, lemma_find_seq_bounds;

/// Whether the pattern holds any of the characters that put it in glob mode.
pub open spec fn spec_has_glob(p: Seq<char>) -> bool {
    exists|i: int| 0 <= i < p.len() && (p[i] == '*' || p[i] == '?' || p[i] == '[')
}

/// Whether the pattern holds a wildcard character (`*`, `?` or `[`).
pub fn has_glob(pattern: &str) -> (r: bool)
    ensures
        r == spec_has_glob(pattern@),
{
    let n = pattern.unicode_len();
    let mut i: usize = 0;
    while i < n
        invariant
            i <= n,
            n == pattern@.len(),
            forall|j: int|
                0 <= j < i ==> !(pattern@[j] == '*' || pattern@[j] == '?' || pattern@[j] == '['),
        decreases n - i,
    {
        let c = pattern.get_char(i);
        if c == '*' || c == '?' || c == '[' {
            return true;
        }
        i = i + 1;
    }
    false
}

/// What remains of a match after a `*` has been consumed: each further
/// `*`-separated segment of `p` must be found in order in `t`, and at the
/// end either the pattern ends with `*` or nothing of `t` is left over.
pub open spec fn star_match(p: Seq<char>, t: Seq<char>) -> bool
    decreases p.len(),
{
    let k = find_char(p, '*') as int;
    let seg = p.subrange(0, k);
    if k == p.len() {
        seg.len() == 0 || (find_seq(t, seg) >= 0 && find_seq(t, seg) + seg.len() == t.len())
    } else if seg.len() == 0 {
        star_match(p.subrange(k + 1, p.len() as int), t)
    } else if find_seq(t, seg) < 0 {
        false
    } else {
        star_match(
            p.subrange(k + 1, p.len() as int),
            t.subrange(find_seq(t, seg) + seg.len(), t.len() as int),
        )
    }
}

/// The single-segment wildcard rule: a pattern without `*` must equal the
/// name; otherwise the name must start with the text before the first `*`
/// and the rest must satisfy [`star_match`].
pub open spec fn spec_wildcard_match(p: Seq<char>, t: Seq<char>) -> bool {
    let k = find_char(p, '*') as int;
    if k == p.len() {
        p == t
    } else {
        t.len() >= k && t.subrange(0, k) == p.subrange(0, k) && star_match(
            p.subrange(k + 1, p.len() as int),
            t.subrange(k, t.len() as int),
        )
    }
}

fn star_match_exec(p: &str, t: &str) -> (r: bool)
    ensures
        r == star_match(p@, t@),
    decreases p@.len(),
{
    proof {
        lemma_find_char_le_len(p@, '*');
    }
    let n = p.unicode_len();
    let tn = t.unicode_len();
    let k = str_find_char(p, '*');
    let seg = p.substring_char(0, k);
    if k == n {
        if k == 0 {
            return true;
        }
        match str_find(t, seg) {
            Some(pos) => pos + k == tn,
            None => false,
        }
    } else if k == 0 {
        star_match_exec(p.substring_char(k + 1, n), t)
    } else {
        match str_find(t, seg) {
            Some(pos) => star_match_exec(p.substring_char(k + 1, n), t.substring_char(pos + k, tn)),
            None => false,
        }
    }
}

/// Whether `text` matches the wildcard `pattern` under the narrow
/// single-segment rule.
pub fn wildcard_match(pattern: &str, text: &str) -> (r: bool)
    ensures
        r == spec_wildcard_match(pattern@, text@),
{
    proof {
        lemma_find_char_le_len(pattern@, '*');
    }
    let n = pattern.unicode_len();
    let tn = text.unicode_len();
    let k = str_find_char(pattern, '*');
    if k == n {
        return str_eq(pattern, text);
    }
    if tn < k {
        return false;
    }
    if !str_eq(text.substring_char(0, k), pattern.substring_char(0, k)) {
        return false;
    }
    star_match_exec(pattern.substring_char(k + 1, n), text.substring_char(k, tn))
}

/// The names of `names` that match `pattern`, in their given order.
pub open spec fn spec_filter_names(names: Seq<Seq<char>>, p: Seq<char>) -> Seq<Seq<char>>
    decreases names.len(),
{
    if names.len() == 0 {
        Seq::empty()
    } else {
        let rest = spec_filter_names(names.drop_last(), p);
        if spec_wildcard_match(p, names.last()) {
            rest.push(names.last())
        } else {
            rest
        }
    }
}

/// Keeps, in order, the names that match the wildcard pattern.
pub fn filter_names(names: &Vec<String>, pattern: &str) -> (r: Vec<String>)
    ensures
        r@.map_values(|s: String| s@) == spec_filter_names(
            names@.map_values(|s: String| s@),
            pattern@,
        ),
{
    let mut r: Vec<String> = Vec::new();
    let mut i: usize = 0;
    while i < names.len()
        invariant
            i <= names@.len(),
            r@.map_values(|s: String| s@) == spec_filter_names(
                names@.subrange(0, i as int).map_values(|s: String| s@),
                pattern@,
            ),
        decreases names@.len() - i,
    {
        let ghost prefix = names@.subrange(0, i as int).map_values(|s: String| s@);
        if wildcard_match(pattern, names[i].as_str()) {
            r.push(names[i].clone());
        }
        i = i + 1;
        proof {
            let next = names@.subrange(0, i as int).map_values(|s: String| s@);
            assert(next.drop_last() =~= prefix);
            assert(next.last() == names@[i - 1]@);
            assert(r@.map_values(|s: String| s@) =~= spec_filter_names(next, pattern@));
        }
    }
    proof {
        assert(names@.subrange(0, names@.len() as int) =~= names@);
    }
    r
}

} // verus!
