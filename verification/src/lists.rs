//! Order-preserving selection from vectors, with its mathematical model.

use vstd::prelude::*;

verus! {

/// The elements of `s` that satisfy `p`, in their original order.
pub open spec fn keep<T>(s: Seq<T>, p: spec_fn(T) -> bool) -> Seq<T>
    decreases s.len(),
{
    if s.len() == 0 {
        Seq::empty()
    } else {
        let rest = keep(s.drop_last(), p);
        if p(s.last()) {
            rest.push(s.last())
        } else {
            rest
        }
    }
}

/// The elements of `s` whose flag in `m` is set, in their original order.
pub open spec fn masked<T>(s: Seq<T>, m: Seq<bool>) -> Seq<T>
    decreases s.len(),
{
    if s.len() == 0 || m.len() == 0 {
        Seq::empty()
    } else {
        let rest = masked(s.drop_last(), m.drop_last());
        if m.last() {
            rest.push(s.last())
        } else {
            rest
        }
    }
}

/// The number of elements of `s` that satisfy `p`.
pub open spec fn count<T>(s: Seq<T>, p: spec_fn(T) -> bool) -> nat {
    keep(s, p).len()
}

/// A mask that flags exactly the elements satisfying `p` selects exactly
/// those elements.
pub proof fn lemma_masked_keep<T>(s: Seq<T>, m: Seq<bool>, p: spec_fn(T) -> bool)
    requires
        m.len() == s.len(),
        forall|i: int| 0 <= i < s.len() ==> m[i] == p(#[trigger] s[i]),
    ensures
        masked(s, m) == keep(s, p),
    decreases s.len(),
{
    if s.len() > 0 {
        assert forall|i: int| 0 <= i < s.drop_last().len() implies m.drop_last()[i] == p(
            #[trigger] s.drop_last()[i],
        ) by {
            assert(s.drop_last()[i] == s[i]);
        }
        lemma_masked_keep(s.drop_last(), m.drop_last(), p);
        assert(m.last() == p(s[s.len() - 1]));
    }
}

/// What `keep` selects from a prefix one element longer.
pub proof fn lemma_keep_push<T>(s: Seq<T>, i: int, p: spec_fn(T) -> bool)
    requires
        0 <= i < s.len(),
    ensures
        keep(s.take(i + 1), p) == if p(s[i]) {
            keep(s.take(i), p).push(s[i])
        } else {
            keep(s.take(i), p)
        },
{
    assert(s.take(i + 1).drop_last() =~= s.take(i));
}

/// What a mask selects from a prefix one element longer.
pub proof fn lemma_masked_push<T>(s: Seq<T>, m: Seq<bool>, i: int)
    requires
        0 <= i < s.len(),
        i < m.len(),
    ensures
        masked(s.take(i + 1), m.take(i + 1)) == if m[i] {
            masked(s.take(i), m.take(i)).push(s[i])
        } else {
            masked(s.take(i), m.take(i))
        },
{
    assert(s.take(i + 1).drop_last() =~= s.take(i));
    assert(m.take(i + 1).drop_last() =~= m.take(i));
}

/// Everything that `keep` selects satisfies the predicate and comes from `s`.
pub proof fn lemma_keep_sound<T>(s: Seq<T>, p: spec_fn(T) -> bool)
    ensures
        forall|k: int| 0 <= k < keep(s, p).len() ==> p(#[trigger] keep(s, p)[k]) && s.contains(
            keep(s, p)[k],
        ),
        keep(s, p).len() <= s.len(),
    decreases s.len(),
{
    if s.len() > 0 {
        lemma_keep_sound(s.drop_last(), p);
        let rest = keep(s.drop_last(), p);
        assert forall|k: int| 0 <= k < keep(s, p).len() implies p(#[trigger] keep(s, p)[k])
            && s.contains(keep(s, p)[k]) by {
            if k < rest.len() {
                assert(keep(s, p)[k] == rest[k]);
                let j = choose|j: int| 0 <= j < s.drop_last().len() && s.drop_last()[j] == rest[k];
                assert(s[j] == rest[k]);
            } else {
                assert(keep(s, p)[k] == s[s.len() - 1]);
            }
        }
    }
}

/// Every element of `s` that satisfies the predicate is selected by `keep`.
pub proof fn lemma_keep_complete<T>(s: Seq<T>, p: spec_fn(T) -> bool, i: int)
    requires
        0 <= i < s.len(),
        p(s[i]),
    ensures
        keep(s, p).contains(s[i]),
    decreases s.len(),
{
    if i < s.len() - 1 {
        assert(s.drop_last()[i] == s[i]);
        lemma_keep_complete(s.drop_last(), p, i);
        let rest = keep(s.drop_last(), p);
        let k = choose|k: int| 0 <= k < rest.len() && rest[k] == s[i];
        if p(s.last()) {
            assert(keep(s, p)[k] == s[i]);
        }
    } else {
        assert(keep(s, p).last() == s[i]);
    }
}

/// Selecting twice with the same predicate selects nothing more.
pub proof fn lemma_keep_idempotent<T>(s: Seq<T>, p: spec_fn(T) -> bool)
    ensures
        keep(keep(s, p), p) == keep(s, p),
    decreases s.len(),
{
    if s.len() > 0 {
        lemma_keep_idempotent(s.drop_last(), p);
        let rest = keep(s.drop_last(), p);
        if p(s.last()) {
            assert(rest.push(s.last()).drop_last() =~= rest);
        }
    }
}

/// Moves out of `v` the elements whose flag in `mask` is set, keeping their
/// order.
pub fn select<T>(v: Vec<T>, mask: &Vec<bool>) -> (r: Vec<T>)
    requires
        mask@.len() == v@.len(),
    ensures
        r@ == masked(v@, mask@),
{
    let ghost s = v@;
    let mut out: Vec<T> = Vec::new();
    let mut k: usize = 0;
    for x in it: v.into_iter()
        invariant
            it.seq() == s,
            k == it.index(),
            mask@.len() == s.len(),
            out@ == masked(s.take(k as int), mask@.take(k as int)),
    {
        assert(k < mask.len());
        proof {
            lemma_masked_push(s, mask@, k as int);
        }
        if mask[k] {
            out.push(x);
        }
        k = k + 1;
    }
    assert(s.take(s.len() as int) =~= s);
    assert(mask@.take(s.len() as int) =~= mask@);
    out
}

} // verus!
