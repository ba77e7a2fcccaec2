//! Lexicographic order on strings, and the sorting and de-duplication of
//! string lists.

use vstd::prelude::*;
use crate::text::strs;

verus! {

/// `a` comes no later than `b` in the lexicographic order of code points,
/// which for UTF-8 text is the order of `String`'s `Ord`.
pub open spec fn lex_le(a: Seq<char>, b: Seq<char>) -> bool
    decreases a.len(),
{
    if a.len() == 0 {
        true
    } else if b.len() == 0 {
        false
    } else if a[0] != b[0] {
        (a[0] as u32) < (b[0] as u32)
    } else {
        lex_le(a.drop_first(), b.drop_first())
    }
}

pub open spec fn sorted(s: Seq<Seq<char>>) -> bool {
    forall|i: int, j: int| 0 <= i < j < s.len() ==> lex_le(s[i], s[j])
}

/// `out` holds the items of `inp`, each as often, in sorted order.
pub open spec fn sorted_perm_of(out: Seq<Seq<char>>, inp: Seq<Seq<char>>) -> bool {
    sorted(out) && out.to_multiset() == inp.to_multiset()
}

/// The items of `s` without repeats, each where it first occurs.
pub open spec fn distinct(s: Seq<Seq<char>>) -> Seq<Seq<char>>
    decreases s.len(),
{
    if s.len() == 0 {
        Seq::empty()
    } else {
        let k = distinct(s.drop_last());
        if k.contains(s.last()) {
            k
        } else {
            k.push(s.last())
        }
    }
}

/// Relies on `slice::sort` on `String`s: the same items, in ascending order of
/// `String`'s `Ord`, which compares the bytes lexicographically.
#[verifier::external_body]
pub(crate) fn sort_strings(v: &mut Vec<String>)
    ensures
        sorted_perm_of(strs(final(v)@), strs(old(v)@)),
{
    v.sort();
}

/// The strings of `v` without repeats, each where it first occurs.
pub fn dedup_strings(v: &Vec<String>) -> (r: Vec<String>)
    ensures
        strs(r@) == distinct(strs(v@)),
{
    let mut r: Vec<String> = Vec::new();
    let n = v.len();
    let mut i: usize = 0;
    while i < n
        invariant
            n == v@.len(),
            i <= n,
            strs(r@) == distinct(strs(v@.subrange(0, i as int))),
        decreases n - i,
    {
        let g = &v[i];
        let ghost s = strs(v@.subrange(0, i as int));
        assert(strs(v@.subrange(0, i + 1)) =~= s.push(g@));
        assert(s.push(g@).drop_last() =~= s);
        let mut found = false;
        let mut j: usize = 0;
        while j < r.len()
            invariant
                j <= r@.len(),
                strs(r@) == distinct(s),
                found ==> strs(r@).contains(g@),
                !found ==> forall|k: int| 0 <= k < j ==> strs(r@)[k] != g@,
            decreases r@.len() - j,
        {
            if r[j] == *g {
                assert(strs(r@)[j as int] == g@);
                found = true;
            }
            j = j + 1;
        }
        if !found {
            let ghost before = r@;
            r.push(g.clone());
            assert(strs(r@) =~= strs(before).push(g@));
        }
        i = i + 1;
    }
    assert(v@.subrange(0, n as int) =~= v@);
    r
}

} // verus!
