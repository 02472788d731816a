use vstd::prelude::*;

use crate::toy_vec::{capacity_after_push, Iter, ToyVec};

verus! {

/// Holds of 1, 2, 4, 8, ...
pub open spec fn is_power_of_two(c: nat) -> bool
    decreases c,
{
    if c <= 1 {
        c == 1
    } else {
        c % 2 == 0 && is_power_of_two(c / 2)
    }
}

/// Capacity of a container made with no slots after `n` pushes, following
/// the capacity that `push` promises.
pub open spec fn capacity_after_pushes(n: nat) -> nat
    decreases n,
{
    if n == 0 {
        0
    } else {
        capacity_after_push(capacity_after_pushes((n - 1) as nat), (n - 1) as nat)
    }
}

/// `vs[0], vs[1], ...` are the states of one container through pushes of
/// `xs[0], xs[1], ...`, one call each, as `push` describes them.
pub open spec fn is_push_trace<T: Default>(vs: Seq<ToyVec<T>>, xs: Seq<T>) -> bool {
    &&& vs.len() == xs.len() + 1
    &&& forall|i: int|
        0 <= i < xs.len() ==> #[trigger] ToyVec::is_push_of(vs[i], vs[i + 1], xs[i])
}

/// `its[0], its[1], ...` are the states of one view through calls of `next`
/// that returned `rs[0], rs[1], ...`, as `next` describes them.
pub open spec fn is_next_trace<'vec, T>(its: Seq<Iter<'vec, T>>, rs: Seq<Option<&'vec T>>) -> bool {
    &&& its.len() == rs.len() + 1
    &&& forall|i: int|
        0 <= i < rs.len() ==> #[trigger] Iter::is_next_of(its[i], its[i + 1], rs[i])
}

proof fn lemma_capacity_after_pushes(n: nat)
    ensures
        n <= capacity_after_pushes(n),
        n == 0 <==> capacity_after_pushes(n) == 0,
        n > 0 ==> is_power_of_two(capacity_after_pushes(n)),
    decreases n,
{
    if n > 0 {
        let m = (n - 1) as nat;
        lemma_capacity_after_pushes(m);
        let c = capacity_after_pushes(m);
        if m == 0 {
            assert(capacity_after_pushes(n) == 1);
        } else if m < c {
            assert(capacity_after_pushes(n) == c);
        } else {
            assert(capacity_after_pushes(n) == 2 * c);
            assert((2 * c) / 2 == c);
            assert(is_power_of_two(2 * c));
        }
    }
}

proof fn lemma_push_trace_at<T: Default>(vs: Seq<ToyVec<T>>, xs: Seq<T>, i: int)
    requires
        is_push_trace(vs, xs),
        vs[0]@ == Seq::<T>::empty(),
        vs[0].spec_capacity() == 0,
        0 <= i <= xs.len(),
    ensures
        vs[i]@ == xs.take(i),
        vs[i].spec_capacity() == capacity_after_pushes(i as nat),
    decreases i,
{
    if i > 0 {
        lemma_push_trace_at(vs, xs, i - 1);
        let k = i - 1;
        assert(ToyVec::is_push_of(vs[k], vs[k + 1], xs[k]));
        assert(xs.take(i - 1).push(xs[i - 1]) =~= xs.take(i));
    } else {
        assert(xs.take(0) =~= Seq::<T>::empty());
    }
}

/// Growth: from a container with no slots, after every push the length is at
/// most the capacity, and the capacity is a power of two (1, 2, 4, 8, ...);
/// it is zero only before the first push.
pub proof fn lemma_growth<T: Default>(vs: Seq<ToyVec<T>>, xs: Seq<T>)
    requires
        is_push_trace(vs, xs),
        vs[0]@ == Seq::<T>::empty(),
        vs[0].spec_capacity() == 0,
    ensures
        forall|i: int|
            0 <= i < vs.len() ==> {
                &&& (#[trigger] vs[i])@.len() == i
                &&& vs[i]@.len() <= vs[i].spec_capacity()
                &&& vs[i].spec_capacity() == capacity_after_pushes(i as nat)
                &&& (vs[i].spec_capacity() == 0 <==> i == 0)
                &&& i > 0 ==> is_power_of_two(vs[i].spec_capacity())
            },
{
    assert forall|i: int| 0 <= i < vs.len() implies {
        &&& (#[trigger] vs[i])@.len() == i
        &&& vs[i]@.len() <= vs[i].spec_capacity()
        &&& vs[i].spec_capacity() == capacity_after_pushes(i as nat)
        &&& (vs[i].spec_capacity() == 0 <==> i == 0)
        &&& i > 0 ==> is_power_of_two(vs[i].spec_capacity())
    } by {
        lemma_push_trace_at(vs, xs, i);
        lemma_capacity_after_pushes(i as nat);
    }
}

/// Round trip: a push of `x` followed at once by a pop returns `x` and leaves
/// the elements, and so the length, as they were before the push.
pub proof fn lemma_push_pop<T: Default>(
    v0: ToyVec<T>,
    v1: ToyVec<T>,
    v2: ToyVec<T>,
    x: T,
    r: Option<T>,
)
    requires
        ToyVec::is_push_of(v0, v1, x),
        ToyVec::is_pop_of(v1, v2, r),
    ensures
        r == Some(x),
        v2@ == v0@,
        v2@.len() == v0@.len(),
{
    assert(v0@.push(x).drop_last() =~= v0@);
}

/// Order: pushing `xs[0], xs[1], ...` into an empty container leaves exactly
/// those values in it, in that order, so that element `i` is the `i`-th value
/// pushed.
pub proof fn lemma_order_preserved<T: Default>(vs: Seq<ToyVec<T>>, xs: Seq<T>)
    requires
        is_push_trace(vs, xs),
        vs[0]@ == Seq::<T>::empty(),
        vs[0].spec_capacity() == 0,
    ensures
        vs.last()@ == xs,
        forall|i: int| 0 <= i < xs.len() ==> vs.last()@[i] == xs[i],
{
    lemma_push_trace_at(vs, xs, xs.len() as int);
    assert(xs.take(xs.len() as int) =~= xs);
}

proof fn lemma_next_trace_at<'vec, T>(
    its: Seq<Iter<'vec, T>>,
    rs: Seq<Option<&'vec T>>,
    s: Seq<T>,
    i: int,
)
    requires
        is_next_trace(its, rs),
        its[0]@ == s,
        0 <= i <= rs.len(),
    ensures
        i <= s.len() ==> its[i]@ == s.skip(i),
        i > s.len() ==> its[i]@.len() == 0,
    decreases i,
{
    if i > 0 {
        lemma_next_trace_at(its, rs, s, i - 1);
        let k = i - 1;
        assert(Iter::is_next_of(its[k], its[k + 1], rs[k]));
        if i <= s.len() {
            assert(s.skip(i - 1).drop_first() =~= s.skip(i));
        } else if i - 1 == s.len() {
            assert(s.skip(i - 1).len() == 0);
        }
    } else {
        assert(s.skip(0) =~= s);
    }
}

/// Traversal: successive calls of `next` on a view of a container holding
/// `s` return a reference to `s[0], s[1], ...` in order, and `None` from then
/// on.
pub proof fn lemma_traversal_order<'vec, T>(
    its: Seq<Iter<'vec, T>>,
    rs: Seq<Option<&'vec T>>,
    s: Seq<T>,
)
    requires
        is_next_trace(its, rs),
        its[0]@ == s,
    ensures
        forall|i: int| 0 <= i < rs.len() && i < s.len() ==> #[trigger] rs[i] == Some(&s[i]),
        forall|i: int| 0 <= i < rs.len() && i >= s.len() ==> #[trigger] rs[i] is None,
{
    assert forall|i: int| 0 <= i < rs.len() implies (i < s.len() ==> #[trigger] rs[i] == Some(
        &s[i],
    )) && (i >= s.len() ==> rs[i] is None) by {
        lemma_next_trace_at(its, rs, s, i);
        assert(Iter::is_next_of(its[i], its[i + 1], rs[i]));
    }
}

} // verus!
