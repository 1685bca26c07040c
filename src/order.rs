use vstd::multiset::Multiset;
use vstd::prelude::*;

use crate::model::Branch;

verus! {

/// `a` is at or before `b` in code point order, from position `i` on, given
/// that the two agree before `i`.
pub open spec fn lex_le_from(a: Seq<char>, b: Seq<char>, i: int) -> bool
    decreases a.len() - i,
{
    if i < 0 || i >= a.len() {
        true
    } else if i >= b.len() {
        false
    } else if (a[i] as u32) < (b[i] as u32) {
        true
    } else if (a[i] as u32) > (b[i] as u32) {
        false
    } else {
        lex_le_from(a, b, i + 1)
    }
}

/// Lexicographic order on names, by code point, case-sensitive.
pub open spec fn lex_le(a: Seq<char>, b: Seq<char>) -> bool {
    lex_le_from(a, b, 0)
}

/// The order of a report: the head branch first, the others by name.
pub open spec fn before(a: (Seq<char>, bool), b: (Seq<char>, bool)) -> bool {
    a.1 || (!b.1 && lex_le(a.0, b.0))
}

pub open spec fn ordered(s: Seq<(Seq<char>, bool)>) -> bool {
    forall|i: int, j: int| 0 <= i < j < s.len() ==> before(#[trigger] s[i], #[trigger] s[j])
}

proof fn lemma_lex_total_from(a: Seq<char>, b: Seq<char>, i: int)
    requires
        0 <= i,
    ensures
        lex_le_from(a, b, i) || lex_le_from(b, a, i),
    decreases a.len() - i,
{
    if i < a.len() && i < b.len() && (a[i] as u32) == (b[i] as u32) {
        lemma_lex_total_from(a, b, i + 1);
    }
}

proof fn lemma_lex_trans_from(a: Seq<char>, b: Seq<char>, c: Seq<char>, i: int)
    requires
        0 <= i,
        lex_le_from(a, b, i),
        lex_le_from(b, c, i),
    ensures
        lex_le_from(a, c, i),
    decreases a.len() - i,
{
    if i < a.len() && i < b.len() && i < c.len() && (a[i] as u32) == (b[i] as u32) && (b[i] as u32) == (c[i] as u32) {
        lemma_lex_trans_from(a, b, c, i + 1);
    }
}

proof fn lemma_before_total(a: (Seq<char>, bool), b: (Seq<char>, bool))
    ensures
        before(a, b) || before(b, a),
{
    lemma_lex_total_from(a.0, b.0, 0);
}

proof fn lemma_before_trans(a: (Seq<char>, bool), b: (Seq<char>, bool), c: (Seq<char>, bool))
    requires
        before(a, b),
        before(b, c),
    ensures
        before(a, c),
{
    if !a.1 {
        lemma_lex_trans_from(a.0, b.0, c.0, 0);
    }
}

/// In a list in report order a head branch, if there is one, stands first,
/// and the branches that are not head follow each other in lexicographic
/// order of their names.
pub proof fn lemma_ordered_head_first(s: Seq<(Seq<char>, bool)>)
    requires
        ordered(s),
    ensures
        forall|j: int| 0 <= j < s.len() && (#[trigger] s[j]).1 ==> s[0].1,
        forall|i: int, j: int|
            0 <= i < j < s.len() && !s[i].1 && !s[j].1 ==> lex_le(
                (#[trigger] s[i]).0,
                (#[trigger] s[j]).0,
            ),
{
    assert forall|j: int| 0 <= j < s.len() && (#[trigger] s[j]).1 implies s[0].1 by {
        if j > 0 {
            assert(before(s[0], s[j]));
        }
    }
}

proof fn lemma_empty_multiset<A>(s: Seq<A>)
    requires
        s.len() == 0,
    ensures
        s.to_multiset() =~= Multiset::<A>::empty(),
{
    broadcast use vstd::seq_lib::group_to_multiset_ensures;

    assert forall|x: A| s.to_multiset().count(x) == 0 by {
        assert(!s.contains(x));
    }
}

/// Compares two names by code point.
pub fn name_le(a: &str, b: &str) -> (r: bool)
    ensures
        r == lex_le(a@, b@),
{
    let la = a.unicode_len();
    let lb = b.unicode_len();
    let mut i: usize = 0;
    while i < la
        invariant
            la == a@.len(),
            lb == b@.len(),
            i <= la,
            lex_le_from(a@, b@, 0) == lex_le_from(a@, b@, i as int),
        decreases la - i,
    {
        if i >= lb {
            return false;
        }
        let ca = a.get_char(i);
        let cb = b.get_char(i);
        if (ca as u32) < (cb as u32) {
            return true;
        }
        if (ca as u32) > (cb as u32) {
            return false;
        }
        i = i + 1;
    }
    true
}

/// Whether `a` sorts at or before `b`: a head branch first, the others by name.
pub fn branch_before(a: &Branch, b: &Branch) -> (r: bool)
    ensures
        r == before(a@, b@),
{
    if a.is_head {
        true
    } else if b.is_head {
        false
    } else {
        name_le(a.name.as_str(), b.name.as_str())
    }
}

/// Sorts a repository's branches: the head branch, if any, first, and the
/// others in lexicographic order of their names.
pub fn sort_branches(branches: Vec<Branch>) -> (r: Vec<Branch>)
    ensures
        r@.map_values(|b: Branch| b@).to_multiset() == branches@.map_values(
            |b: Branch| b@,
        ).to_multiset(),
        ordered(r@.map_values(|b: Branch| b@)),
        forall|j: int| 0 <= j < r@.len() && #[trigger] r@[j].is_head ==> r@[0].is_head,
        forall|i: int, j: int|
            0 <= i < j < r@.len() && !r@[i].is_head && !r@[j].is_head ==> lex_le(
                #[trigger] r@[i].name@,
                #[trigger] r@[j].name@,
            ),
{
    let ghost orig = branches@.map_values(|b: Branch| b@);
    let mut rest = branches;
    let mut out: Vec<Branch> = Vec::new();
    proof {
        lemma_empty_multiset(out@.map_values(|b: Branch| b@));
    }
    while rest.len() > 0
        invariant
            out@.map_values(|b: Branch| b@).to_multiset().add(
                rest@.map_values(|b: Branch| b@).to_multiset(),
            ) == orig.to_multiset(),
            ordered(out@.map_values(|b: Branch| b@)),
            forall|i: int, j: int|
                0 <= i < out@.len() && 0 <= j < rest@.len() ==> before(
                    #[trigger] out@[i]@,
                    #[trigger] rest@[j]@,
                ),
        decreases rest.len(),
    {
        let mut m: usize = 0;
        let mut k: usize = 1;
        proof {
            lemma_before_total(rest@[0]@, rest@[0]@);
        }
        while k < rest.len()
            invariant
                0 <= m < k <= rest@.len(),
                forall|x: int| 0 <= x < k ==> before(rest@[m as int]@, #[trigger] rest@[x]@),
            decreases rest.len() - k,
        {
            if !branch_before(&rest[m], &rest[k]) {
                proof {
                    lemma_before_total(rest@[m as int]@, rest@[k as int]@);
                    lemma_before_total(rest@[k as int]@, rest@[k as int]@);
                    assert forall|x: int| 0 <= x < k implies before(
                        rest@[k as int]@,
                        #[trigger] rest@[x]@,
                    ) by {
                        lemma_before_trans(rest@[k as int]@, rest@[m as int]@, rest@[x]@);
                    }
                }
                m = k;
            } else {
            }
            k = k + 1;
        }
        let ghost old_rest = rest@;
        let ghost old_out = out@;
        let b = rest.remove(m);
        proof {
            broadcast use vstd::seq_lib::group_to_multiset_ensures;
            assert(old_rest.map_values(|b: Branch| b@).remove(m as int) =~= rest@.map_values(
                |b: Branch| b@,
            ));
        }
        out.push(b);
        proof {
            broadcast use vstd::seq_lib::group_to_multiset_ensures;
            assert(old_out.map_values(|b: Branch| b@).push(b@) =~= out@.map_values(
                |b: Branch| b@,
            ));
            assert forall|i: int, j: int| 0 <= i < out@.len() && 0 <= j < rest@.len() implies before(
                #[trigger] out@[i]@,
                #[trigger] rest@[j]@,
            ) by {
                if j < m {
                    assert(rest@[j] == old_rest[j]);
                } else {
                    assert(rest@[j] == old_rest[j + 1]);
                }
                if i == old_out.len() {
                    assert(out@[i] == old_rest[m as int]);
                } else {
                    assert(out@[i] == old_out[i]);
                }
            }
        }
    }
    proof {
        lemma_empty_multiset(rest@.map_values(|b: Branch| b@));
        let s = out@.map_values(|b: Branch| b@);
        lemma_ordered_head_first(s);
        assert forall|j: int| 0 <= j < out@.len() && #[trigger] out@[j].is_head implies out@[0].is_head by {
            assert(s[j] == out@[j]@);
        }
        assert forall|i: int, j: int|
            0 <= i < j < out@.len() && !out@[i].is_head && !out@[j].is_head implies lex_le(
                #[trigger] out@[i].name@,
                #[trigger] out@[j].name@,
            ) by {
            assert(s[i] == out@[i]@ && s[j] == out@[j]@);
        }
    }
    out
}

} // verus!
