//! Sums of an integer function over a finite set.

use vstd::prelude::*;

verus! {

/// The sum of `f` over the finite set `s`.
pub open spec fn set_sum<A>(s: Set<A>, f: spec_fn(A) -> int) -> int
    decreases s.len(),
    when s.finite()
{
    if s.len() == 0 {
        0
    } else {
        let a = s.choose();
        f(a) + set_sum(s.remove(a), f)
    }
}

/// The sum over the empty set is zero.
pub proof fn lemma_set_sum_empty<A>(f: spec_fn(A) -> int)
    ensures
        set_sum(Set::<A>::empty(), f) == 0,
{
}

/// The sum over a set is the term of any of its elements plus the sum over
/// the rest.
pub proof fn lemma_set_sum_remove<A>(s: Set<A>, f: spec_fn(A) -> int, a: A)
    requires
        s.finite(),
        s.contains(a),
    ensures
        set_sum(s, f) == f(a) + set_sum(s.remove(a), f),
    decreases s.len(),
{
    let c = s.choose();
    if c != a {
        lemma_set_sum_remove(s.remove(c), f, a);
        lemma_set_sum_remove(s.remove(a), f, c);
        assert(s.remove(c).remove(a) =~= s.remove(a).remove(c));
    }
}

/// Adding an element to a set adds its term to the sum.
pub proof fn lemma_set_sum_insert<A>(s: Set<A>, f: spec_fn(A) -> int, a: A)
    requires
        s.finite(),
        !s.contains(a),
    ensures
        set_sum(s.insert(a), f) == f(a) + set_sum(s, f),
{
    lemma_set_sum_remove(s.insert(a), f, a);
    assert(s.insert(a).remove(a) =~= s);
}

/// Functions that agree on a set have the same sum over it.
pub proof fn lemma_set_sum_congruent<A>(s: Set<A>, f: spec_fn(A) -> int, g: spec_fn(A) -> int)
    requires
        s.finite(),
        forall|x: A| s.contains(x) ==> f(x) == g(x),
    ensures
        set_sum(s, f) == set_sum(s, g),
    decreases s.len(),
{
    if s.len() != 0 {
        let a = s.choose();
        lemma_set_sum_congruent(s.remove(a), f, g);
    }
}

/// A function no greater than another on a set has no greater sum over it.
pub proof fn lemma_set_sum_le<A>(s: Set<A>, f: spec_fn(A) -> int, g: spec_fn(A) -> int)
    requires
        s.finite(),
        forall|x: A| s.contains(x) ==> f(x) <= g(x),
    ensures
        set_sum(s, f) <= set_sum(s, g),
    decreases s.len(),
{
    if s.len() != 0 {
        let a = s.choose();
        lemma_set_sum_le(s.remove(a), f, g);
    }
}

/// Scaling every term by `c` scales the sum by `c`.
pub proof fn lemma_set_sum_scale<A>(s: Set<A>, f: spec_fn(A) -> int, g: spec_fn(A) -> int, c: int)
    requires
        s.finite(),
        forall|x: A| s.contains(x) ==> g(x) == c * f(x),
    ensures
        set_sum(s, g) == c * set_sum(s, f),
    decreases s.len(),
{
    if s.len() != 0 {
        let a = s.choose();
        lemma_set_sum_scale(s.remove(a), f, g, c);
        let rest = set_sum(s.remove(a), f);
        assert(c * f(a) + c * rest == c * (f(a) + rest)) by (nonlinear_arith);
    }
}

/// A term of a sum of nonnegative terms is no greater than the sum.
pub proof fn lemma_set_sum_term_le<A>(s: Set<A>, f: spec_fn(A) -> int, a: A)
    requires
        s.finite(),
        s.contains(a),
        forall|x: A| s.contains(x) ==> f(x) >= 0,
    ensures
        f(a) <= set_sum(s, f),
{
    lemma_set_sum_remove(s, f, a);
    lemma_set_sum_le(s.remove(a), |x: A| 0int, f);
    lemma_set_sum_zero(s.remove(a));
}

/// A sum of nonnegative terms is nonnegative.
pub proof fn lemma_set_sum_nonneg<A>(s: Set<A>, f: spec_fn(A) -> int)
    requires
        s.finite(),
        forall|x: A| s.contains(x) ==> f(x) >= 0,
    ensures
        set_sum(s, f) >= 0,
{
    lemma_set_sum_le(s, |x: A| 0int, f);
    lemma_set_sum_zero(s);
}

/// The sum of zeros is zero.
pub proof fn lemma_set_sum_zero<A>(s: Set<A>)
    requires
        s.finite(),
    ensures
        set_sum(s, |x: A| 0int) == 0,
    decreases s.len(),
{
    if s.len() != 0 {
        lemma_set_sum_zero(s.remove(s.choose()));
    }
}

/// A sum of nonnegative terms over a subset is no greater than over the
/// whole set.
pub proof fn lemma_set_sum_subset<A>(s: Set<A>, t: Set<A>, f: spec_fn(A) -> int)
    requires
        s.finite(),
        t.subset_of(s),
        forall|x: A| s.contains(x) ==> f(x) >= 0,
    ensures
        set_sum(t, f) <= set_sum(s, f),
    decreases s.len(),
{
    vstd::set_lib::lemma_set_subset_finite(s, t);
    if s.len() != 0 {
        let a = s.choose();
        if t.contains(a) {
            lemma_set_sum_remove(t, f, a);
            lemma_set_sum_subset(s.remove(a), t.remove(a), f);
        } else {
            assert(t.subset_of(s.remove(a)));
            lemma_set_sum_subset(s.remove(a), t, f);
        }
    } else {
        assert(t.len() == 0) by {
            vstd::set_lib::lemma_len_subset(t, s);
        }
    }
}

} // verus!
