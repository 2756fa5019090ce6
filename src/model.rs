//! The mathematical model shared by the lists: a sequence, front first.
use vstd::prelude::*;

verus! {

/// The element at the front of `s`, if there is one.
pub open spec fn front<T>(s: Seq<T>) -> Option<T> {
    if s.len() > 0 {
        Some(s[0])
    } else {
        None
    }
}

/// `s` without its front element; an empty sequence stays empty.
pub open spec fn rest<T>(s: Seq<T>) -> Seq<T> {
    if s.len() > 0 {
        s.drop_first()
    } else {
        s
    }
}

/// The sequence after pushing the elements of `xs` onto the front of `s`,
/// first element first.
pub open spec fn push_all<T>(s: Seq<T>, xs: Seq<T>) -> Seq<T>
    decreases xs.len(),
{
    if xs.len() == 0 {
        s
    } else {
        seq![xs.last()].add(push_all(s, xs.drop_last()))
    }
}

/// What `n` pops in a row from `s` return, one entry per pop.
pub open spec fn pop_results<T>(s: Seq<T>, n: nat) -> Seq<Option<T>>
    decreases n,
{
    if n == 0 {
        Seq::empty()
    } else {
        seq![front(s)].add(pop_results(rest(s), (n - 1) as nat))
    }
}

/// What is left of `s` after `n` pops in a row.
pub open spec fn after_pops<T>(s: Seq<T>, n: nat) -> Seq<T>
    decreases n,
{
    if n == 0 {
        s
    } else {
        after_pops(rest(s), (n - 1) as nat)
    }
}

/// Each element wrapped in `Some`.
pub open spec fn somes<T>(s: Seq<T>) -> Seq<Option<T>> {
    s.map_values(|x: T| Some(x))
}

/// Pushing the elements of `xs` puts them in front of `s` in reverse order.
pub proof fn lemma_push_all<T>(s: Seq<T>, xs: Seq<T>)
    ensures
        push_all(s, xs) == xs.reverse().add(s),
    decreases xs.len(),
{
    if xs.len() > 0 {
        lemma_push_all(s, xs.drop_last());
        assert(xs.reverse() =~= seq![xs.last()].add(xs.drop_last().reverse()));
        assert(push_all(s, xs) =~= xs.reverse().add(s));
    }
}

/// Popping as many times as `ys` is long from `ys + s` returns the elements
/// of `ys` front first and leaves `s`.
pub proof fn lemma_pop_prefix<T>(ys: Seq<T>, s: Seq<T>)
    ensures
        pop_results(ys.add(s), ys.len()) == somes(ys),
        after_pops(ys.add(s), ys.len()) == s,
    decreases ys.len(),
{
    if ys.len() > 0 {
        let tail = ys.drop_first();
        assert(rest(ys.add(s)) =~= tail.add(s));
        lemma_pop_prefix(tail, s);
        assert(somes(ys) =~= seq![Some(ys[0])].add(somes(tail)));
    } else {
        assert(ys.add(s) =~= s);
        assert(somes(ys) =~= Seq::<Option<T>>::empty());
    }
}

/// Popping an empty sequence returns `None` every time and leaves it empty,
/// however often it is done.
pub proof fn lemma_pop_empty<T>(n: nat)
    ensures
        pop_results(Seq::<T>::empty(), n) == Seq::new(n, |i: int| None::<T>),
        after_pops(Seq::<T>::empty(), n) == Seq::<T>::empty(),
    decreases n,
{
    if n > 0 {
        lemma_pop_empty::<T>((n - 1) as nat);
        assert(pop_results(Seq::<T>::empty(), n) =~= Seq::new(n, |i: int| None::<T>));
    }
}

/// Pushes followed by as many pops return the pushed elements in reverse
/// order and leave the list as it was; on a list that started empty, one
/// pop more returns `None`.
pub proof fn lemma_pops_reverse_pushes<T>(s: Seq<T>, xs: Seq<T>)
    ensures
        pop_results(push_all(s, xs), xs.len()) == somes(xs.reverse()),
        after_pops(push_all(s, xs), xs.len()) == s,
        pop_results(push_all(Seq::<T>::empty(), xs), xs.len() + 1) == somes(xs.reverse()).push(
            None,
        ),
{
    lemma_push_all(s, xs);
    lemma_pop_prefix(xs.reverse(), s);
    lemma_push_all(Seq::<T>::empty(), xs);
    let r = xs.reverse();
    assert(r.add(Seq::<T>::empty()) =~= r);
    lemma_pop_prefix(r, Seq::<T>::empty());
    lemma_pop_steps(r, r.len(), 1);
    lemma_pop_empty::<T>(1);
    assert(pop_results(Seq::<T>::empty(), 1) =~= seq![None::<T>]);
}

/// `m + k` pops return what the first `m` pops return followed by what `k`
/// more pops return.
pub proof fn lemma_pop_steps<T>(s: Seq<T>, m: nat, k: nat)
    ensures
        pop_results(s, m + k) == pop_results(s, m).add(pop_results(after_pops(s, m), k)),
    decreases m,
{
    if m == 0 {
        assert(pop_results(s, k) =~= Seq::<Option<T>>::empty().add(pop_results(s, k)));
    } else {
        lemma_pop_steps(rest(s), (m - 1) as nat, k);
        assert((m + k - 1) as nat == ((m - 1) as nat + k) as nat);
        assert(pop_results(s, m + k) =~= pop_results(s, m).add(
            pop_results(after_pops(s, m), k),
        ));
    }
}

/// Walking a list front to back, whether by popping it or by stepping an
/// iterator that starts at its elements, yields every element in order and
/// then `None`.
pub proof fn lemma_walk_order<T>(s: Seq<T>)
    ensures
        pop_results(s, s.len() + 1) == somes(s).push(None),
        after_pops(s, s.len()) == Seq::<T>::empty(),
{
    assert(s.add(Seq::<T>::empty()) =~= s);
    lemma_pop_prefix(s, Seq::<T>::empty());
    lemma_pop_steps(s, s.len(), 1);
    lemma_pop_empty::<T>(1);
    assert(pop_results(Seq::<T>::empty(), 1) =~= seq![None::<T>]);
}

/// After a push, the front is the pushed element and the rest is the old
/// sequence; the front of an empty sequence is `None`.
pub proof fn lemma_front_after_push<T>(s: Seq<T>, e: T)
    ensures
        front(seq![e].add(s)) == Some(e),
        rest(seq![e].add(s)) == s,
        seq![e].add(s).len() == s.len() + 1,
        front(Seq::<T>::empty()) is None,
{
    assert(seq![e].add(s).drop_first() =~= s);
}

/// Writing `v` over the front element keeps the length and the rest, and
/// makes `v` what the next pop returns.
pub proof fn lemma_write_front<T>(s: Seq<T>, v: T)
    requires
        s.len() > 0,
    ensures
        front(s.update(0, v)) == Some(v),
        rest(s.update(0, v)) == rest(s),
        s.update(0, v).len() == s.len(),
{
    assert(s.update(0, v).drop_first() =~= s.drop_first());
}

/// `k` pops from `s` leave `s` without its first `k` elements, or nothing
/// once `k` reaches its length.
pub proof fn lemma_after_pops_skip<T>(s: Seq<T>, k: nat)
    ensures
        k <= s.len() ==> after_pops(s, k) == s.skip(k as int),
        k >= s.len() ==> after_pops(s, k) == Seq::<T>::empty(),
    decreases k,
{
    if k == 0 {
        assert(s.skip(0) =~= s);
    } else {
        lemma_after_pops_skip(rest(s), (k - 1) as nat);
        if 0 < k <= s.len() {
            assert(rest(s).skip((k - 1) as int) =~= s.skip(k as int));
        }
    }
}

/// A list built by prepending the elements of `xs` in turn has, after `k`
/// tails, the element prepended `k` steps before the last at its front, and
/// no front once `k` reaches the number of elements; the tail of an empty
/// list is empty.
pub proof fn lemma_tails_of_prepends<T>(xs: Seq<T>, k: nat)
    ensures
        k < xs.len() ==> front(after_pops(push_all(Seq::<T>::empty(), xs), k)) == Some(
            xs[xs.len() - 1 - k],
        ),
        k >= xs.len() ==> front(after_pops(push_all(Seq::<T>::empty(), xs), k)) is None,
        rest(Seq::<T>::empty()) == Seq::<T>::empty(),
{
    lemma_push_all(Seq::<T>::empty(), xs);
    let r = xs.reverse();
    assert(r.add(Seq::<T>::empty()) =~= r);
    lemma_after_pops_skip(r, k);
}

/// Two lists made by prepending onto one shared list each see their own
/// front element, and both have that shared list, unchanged, as their tail.
pub proof fn lemma_siblings_share_tail<T>(base: Seq<T>, x: T, y: T)
    ensures
        front(seq![x].add(base)) == Some(x),
        front(seq![y].add(base)) == Some(y),
        rest(seq![x].add(base)) == base,
        rest(seq![y].add(base)) == base,
{
    lemma_front_after_push(base, x);
    lemma_front_after_push(base, y);
}

} // verus!
