//! Collecting what a function yields at each element of a sequence.

use vstd::prelude::*;

verus! {

/// What `f` yields at each element of `items`, in order, as one sequence.
pub open spec fn flat_map<T, U>(items: Seq<T>, f: spec_fn(T) -> Seq<U>) -> Seq<U>
    decreases items.len(),
{
    if items.len() == 0 {
        Seq::empty()
    } else {
        flat_map(items.drop_last(), f) + f(items.last())
    }
}

/// Two functions that agree everywhere collect the same.
pub proof fn lemma_flat_map_same<T, U>(items: Seq<T>, f: spec_fn(T) -> Seq<U>, g: spec_fn(T) -> Seq<U>)
    requires
        forall|x: T| #[trigger] f(x) == g(x),
    ensures
        flat_map(items, f) == flat_map(items, g),
    decreases items.len(),
{
    if items.len() > 0 {
        lemma_flat_map_same(items.drop_last(), f, g);
    }
}

/// Collecting over the first `i + 1` elements adds what `f` yields at
/// element `i` to what was collected over the first `i`.
pub proof fn lemma_flat_map_step<T, U>(items: Seq<T>, f: spec_fn(T) -> Seq<U>, i: int)
    requires
        0 <= i < items.len(),
    ensures
        flat_map(items.take(i + 1), f) == flat_map(items.take(i), f) + f(items[i]),
{
    assert(items.take(i + 1).drop_last() == items.take(i));
    assert(items.take(i + 1).last() == items[i]);
}

/// Collecting over a single element.
pub proof fn lemma_flat_map_one<T, U>(x: T, f: spec_fn(T) -> Seq<U>)
    ensures
        flat_map(seq![x], f) == f(x),
{
    let one = seq![x];
    assert(one.drop_last() =~= Seq::<T>::empty());
    assert(flat_map(one.drop_last(), f) == Seq::<U>::empty());
    assert(one.last() == x);
    assert(Seq::<U>::empty() + f(x) =~= f(x));
}

/// Nothing is collected where `f` yields nothing at any element.
pub proof fn lemma_flat_map_nothing<T, U>(items: Seq<T>, f: spec_fn(T) -> Seq<U>)
    requires
        forall|i: int| 0 <= i < items.len() ==> (#[trigger] f(items[i])).len() == 0,
    ensures
        flat_map(items, f) == Seq::<U>::empty(),
    decreases items.len(),
{
    if items.len() > 0 {
        assert forall|i: int| 0 <= i < items.drop_last().len() implies (#[trigger] f(
            items.drop_last()[i],
        )).len() == 0 by {
            assert(items.drop_last()[i] == items[i]);
        }
        lemma_flat_map_nothing(items.drop_last(), f);
        assert(f(items[items.len() - 1]).len() == 0);
        assert(flat_map(items, f) =~= Seq::<U>::empty());
    }
}

/// Collecting over two sequences one after the other.
pub proof fn lemma_flat_map_add<T, U>(a: Seq<T>, b: Seq<T>, f: spec_fn(T) -> Seq<U>)
    ensures
        flat_map(a + b, f) == flat_map(a, f) + flat_map(b, f),
    decreases b.len(),
{
    if b.len() == 0 {
        assert(a + b == a);
        assert(flat_map(a, f) + Seq::<U>::empty() == flat_map(a, f));
    } else {
        assert((a + b).drop_last() == a + b.drop_last());
        assert((a + b).last() == b.last());
        lemma_flat_map_add(a, b.drop_last(), f);
        assert(flat_map(a, f) + flat_map(b.drop_last(), f) + f(b.last()) == flat_map(a, f) + (
        flat_map(b.drop_last(), f) + f(b.last())));
    }
}

/// Whatever was collected was yielded at one of the elements.
pub proof fn lemma_flat_map_origin<T, U>(items: Seq<T>, f: spec_fn(T) -> Seq<U>, u: U)
    requires
        flat_map(items, f).contains(u),
    ensures
        exists|i: int| 0 <= i < items.len() && #[trigger] f(items[i]).contains(u),
    decreases items.len(),
{
    if items.len() > 0 {
        let front = flat_map(items.drop_last(), f);
        let back = f(items.last());
        let k = choose|k: int| 0 <= k < (front + back).len() && (front + back)[k] == u;
        if k < front.len() {
            assert(front[k] == u);
            lemma_flat_map_origin(items.drop_last(), f, u);
            let i = choose|i: int|
                0 <= i < items.drop_last().len() && #[trigger] f(items.drop_last()[i]).contains(u);
            assert(f(items[i]).contains(u));
        } else {
            assert(back[k - front.len()] == u);
            assert(f(items[items.len() - 1]).contains(u));
        }
    }
}

/// What is yielded at one of the elements is collected.
pub proof fn lemma_flat_map_holds<T, U>(items: Seq<T>, f: spec_fn(T) -> Seq<U>, i: int, u: U)
    requires
        0 <= i < items.len(),
        f(items[i]).contains(u),
    ensures
        flat_map(items, f).contains(u),
    decreases items.len(),
{
    let front = flat_map(items.drop_last(), f);
    let back = f(items.last());
    if i == items.len() - 1 {
        let k = choose|k: int| 0 <= k < back.len() && back[k] == u;
        assert((front + back)[front.len() + k] == u);
    } else {
        lemma_flat_map_holds(items.drop_last(), f, i, u);
        let k = choose|k: int| 0 <= k < front.len() && front[k] == u;
        assert((front + back)[k] == u);
    }
}

/// How many elements of `items` satisfy `p`.
pub open spec fn count_where<T>(items: Seq<T>, p: spec_fn(T) -> bool) -> nat
    decreases items.len(),
{
    if items.len() == 0 {
        0
    } else {
        count_where(items.drop_last(), p) + if p(items.last()) {
            1nat
        } else {
            0nat
        }
    }
}

/// Counting over two sequences one after the other.
pub proof fn lemma_count_where_add<T>(a: Seq<T>, b: Seq<T>, p: spec_fn(T) -> bool)
    ensures
        count_where(a + b, p) == count_where(a, p) + count_where(b, p),
    decreases b.len(),
{
    if b.len() == 0 {
        assert(a + b == a);
    } else {
        assert((a + b).drop_last() == a + b.drop_last());
        assert((a + b).last() == b.last());
        lemma_count_where_add(a, b.drop_last(), p);
    }
}

/// Nothing is counted where no element satisfies `p`.
pub proof fn lemma_count_where_none<T>(items: Seq<T>, p: spec_fn(T) -> bool)
    requires
        forall|i: int| 0 <= i < items.len() ==> !p(#[trigger] items[i]),
    ensures
        count_where(items, p) == 0,
    decreases items.len(),
{
    if items.len() > 0 {
        assert(!p(items[items.len() - 1]));
        assert forall|i: int| 0 <= i < items.drop_last().len() implies !p(
            #[trigger] items.drop_last()[i],
        ) by {
            assert(items.drop_last()[i] == items[i]);
        }
        lemma_count_where_none(items.drop_last(), p);
    }
}

/// An element that satisfies `p` is counted.
pub proof fn lemma_count_where_some<T>(items: Seq<T>, p: spec_fn(T) -> bool, i: int)
    requires
        0 <= i < items.len(),
        p(items[i]),
    ensures
        count_where(items, p) >= 1,
    decreases items.len(),
{
    if i < items.len() - 1 {
        assert(items.drop_last()[i] == items[i]);
        lemma_count_where_some(items.drop_last(), p, i);
    }
}

/// Where `f` yields one value at the elements that satisfy `p` and none at
/// the others, it collects as many values as there are such elements.
pub proof fn lemma_flat_map_counts<T, U>(items: Seq<T>, f: spec_fn(T) -> Seq<U>, p: spec_fn(T) -> bool)
    requires
        forall|x: T| (#[trigger] f(x)).len() == if p(x) { 1nat } else { 0nat },
    ensures
        flat_map(items, f).len() == count_where(items, p),
    decreases items.len(),
{
    if items.len() > 0 {
        lemma_flat_map_counts(items.drop_last(), f, p);
    }
}

} // verus!
