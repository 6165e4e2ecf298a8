//! Backup naming. A displaced destination file is renamed to the original
//! name with the configured suffix; when that name is taken, numbered
//! candidates `name.~1~`, `name.~2~`, ... are probed in turn until a free
//! one is found. The probing itself asks the filesystem; here stand the
//! candidate names and the guarantee that they never repeat.

use vstd::prelude::*;
use vstd::set_lib::{lemma_int_range, lemma_len_subset, set_int_range};
use vstd::string::StrSliceExecFns;
use vstd::string::StringExecFns;
use crate::strutil::{dec_str, lemma_dec_str_injective, str_eq, u64_to_string};

verus! {

broadcast use vstd::set::axiom_set_insert_len;

/// The suffix actually appended: an empty configured suffix stands for `~`.
pub open spec fn spec_norm_suffix(s: Seq<char>) -> Seq<char> {
    if s.len() == 0 {
        seq!['~']
    } else {
        s
    }
}

/// The candidate backup name for the given probe: the suffixed name first,
/// then the numbered forms `original.~N~` for N = 1, 2, 3, ...
pub open spec fn spec_backup_candidate(original: Seq<char>, suffix: Seq<char>, attempt: nat) -> Seq<
    char,
> {
    if attempt == 0 {
        original + spec_norm_suffix(suffix)
    } else {
        original + seq!['.', '~'] + dec_str(attempt) + seq!['~']
    }
}

/// The candidate backup path for one probe of the search for a free name.
pub fn backup_candidate(original: &str, suffix: &str, attempt: u64) -> (r: String)
    ensures
        r@ == spec_backup_candidate(original@, suffix@, attempt as nat),
{
    if attempt == 0 {
        let tilde = "~";
        proof {
            reveal_strlit("~");
            assert(tilde@ =~= seq!['~']);
        }
        if suffix.unicode_len() == 0 {
            String::from_str(original).concat(tilde)
        } else {
            String::from_str(original).concat(suffix)
        }
    } else {
        let dot_tilde = ".~";
        let tilde = "~";
        proof {
            reveal_strlit(".~");
            reveal_strlit("~");
            assert(dot_tilde@ =~= seq!['.', '~']);
            assert(tilde@ =~= seq!['~']);
        }
        let n = u64_to_string(attempt);
        let r = String::from_str(original).concat(dot_tilde).concat(n.as_str()).concat(tilde);
        proof {
            assert(r@ =~= original@ + seq!['.', '~'] + dec_str(attempt as nat) + seq!['~']);
        }
        r
    }
}

/// Numbered backup candidates never collide: two distinct probes of the
/// same original name give distinct paths, so a probe that keeps moving to
/// the next number never re-offers a name it produced before.
pub proof fn lemma_backup_candidates_distinct(
    original: Seq<char>,
    suffix: Seq<char>,
    m: nat,
    n: nat,
)
    requires
        1 <= m,
        1 <= n,
        m != n,
    ensures
        spec_backup_candidate(original, suffix, m) != spec_backup_candidate(original, suffix, n),
{
    let a = spec_backup_candidate(original, suffix, m);
    let b = spec_backup_candidate(original, suffix, n);
    if a == b {
        let base = original.len() + 2;
        assert(a.len() == base + dec_str(m).len() + 1);
        assert(b.len() == base + dec_str(n).len() + 1);
        assert(dec_str(m).len() == dec_str(n).len());
        assert(dec_str(m) =~= a.subrange(base as int, a.len() - 1)) by {
            assert forall|i: int| 0 <= i < dec_str(m).len() implies a[base + i] == dec_str(m)[i]
                by {}
        }
        assert(dec_str(n) =~= b.subrange(base as int, b.len() - 1)) by {
            assert forall|i: int| 0 <= i < dec_str(n).len() implies b[base + i] == dec_str(n)[i]
                by {}
        }
        lemma_dec_str_injective(m, n);
        assert(false);
    }
}

/// Whether one of the taken names is `s`.
pub open spec fn spec_taken_contains(taken: Seq<Seq<char>>, s: Seq<char>) -> bool {
    exists|i: int| 0 <= i < taken.len() && taken[i] == s
}

/// Whether the list holds the given string.
fn contains_str(v: &Vec<String>, s: &str) -> (r: bool)
    ensures
        r == spec_taken_contains(v@.map_values(|t: String| t@), s@),
{
    let ghost tv = v@.map_values(|t: String| t@);
    let mut i: usize = 0;
    while i < v.len()
        invariant
            i <= v@.len(),
            tv == v@.map_values(|t: String| t@),
            forall|j: int| 0 <= j < i ==> tv[j] != s@,
        decreases v@.len() - i,
    {
        if str_eq(v[i].as_str(), s) {
            proof {
                assert(tv[i as int] == s@);
            }
            return true;
        }
        i = i + 1;
    }
    false
}

/// The first free backup name for `original`: the suffixed name when it is
/// not taken, else the first numbered candidate that is not. The result is
/// never a taken name — probing never re-offers one — and the search ends
/// because the numbered candidates never repeat while the taken list is
/// finite.
pub fn unique_backup_path(original: &str, suffix: &str, taken: &Vec<String>) -> (r: String)
    requires
        taken@.len() < usize::MAX,
    ensures
        ({
            let tv = taken@.map_values(|t: String| t@);
            !spec_taken_contains(tv, r@) && exists|k: nat|
                r@ == spec_backup_candidate(original@, suffix@, k) && (forall|j: nat|
                    j < k ==> spec_taken_contains(
                        tv,
                        #[trigger] spec_backup_candidate(original@, suffix@, j),
                    ))
        }),
{
    let ghost tv = taken@.map_values(|t: String| t@);
    let c0 = backup_candidate(original, suffix, 0);
    if !contains_str(taken, c0.as_str()) {
        proof {
            let k: nat = 0;
            assert(c0@ == spec_backup_candidate(original@, suffix@, k));
        }
        return c0;
    }
    let mut attempt: u64 = 1;
    let ghost mut matched: Set<int> = Set::empty();
    loop
        invariant
            1 <= attempt,
            tv == taken@.map_values(|t: String| t@),
            taken@.len() < usize::MAX,
            attempt <= taken@.len() + 1,
            forall|j: nat|
                j < attempt ==> spec_taken_contains(
                    tv,
                    #[trigger] spec_backup_candidate(original@, suffix@, j),
                ),
            matched.finite(),
            matched.subset_of(set_int_range(0, taken@.len() as int)),
            matched.len() == attempt - 1,
            forall|i: int|
                #[trigger] matched.contains(i) ==> exists|j: nat|
                    1 <= j < attempt && tv[i] == spec_backup_candidate(original@, suffix@, j),
        decreases taken@.len() + 2 - attempt,
    {
        let c = backup_candidate(original, suffix, attempt);
        if !contains_str(taken, c.as_str()) {
            return c;
        }
        proof {
            let i = choose|i: int| 0 <= i < tv.len() && tv[i] == c@;
            if matched.contains(i) {
                let j = choose|j: nat|
                    1 <= j < attempt && tv[i] == spec_backup_candidate(original@, suffix@, j);
                lemma_backup_candidates_distinct(original@, suffix@, j, attempt as nat);
                assert(false);
            }
            matched = matched.insert(i);
            lemma_int_range(0, taken@.len() as int);
            lemma_len_subset(matched, set_int_range(0, taken@.len() as int));
            assert(matched.len() == attempt as int);
            assert(attempt <= taken@.len());
            assert forall|ii: int| #[trigger] matched.contains(ii) implies exists|j: nat|
                1 <= j < attempt + 1 && tv[ii] == spec_backup_candidate(
                    original@,
                    suffix@,
                    j,
                ) by {
                if ii == i {
                    assert(tv[ii] == spec_backup_candidate(original@, suffix@, attempt as nat));
                }
            }
        }
        attempt = attempt + 1;
    }
}

/// The suffixed candidate differs from every numbered one as long as the
/// suffix does not itself begin with a dot, since the numbered forms all
/// continue the original name with `.~`.
pub proof fn lemma_backup_candidate_zero_distinct(
    original: Seq<char>,
    suffix: Seq<char>,
    n: nat,
)
    requires
        1 <= n,
        spec_norm_suffix(suffix)[0] != '.',
    ensures
        spec_backup_candidate(original, suffix, 0) != spec_backup_candidate(original, suffix, n),
{
    let a = spec_backup_candidate(original, suffix, 0);
    let b = spec_backup_candidate(original, suffix, n);
    if a == b {
        assert(a[original.len() as int] == spec_norm_suffix(suffix)[0]);
        assert(b[original.len() as int] == '.');
        assert(false);
    }
}

} // verus!
