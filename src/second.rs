//! A generic stack in a singly-linked list of boxed nodes, with access to
//! the front element and three ways to walk the elements.
use crate::model::{
    after_pops, front, lemma_pop_empty, lemma_walk_order, lemma_pops_reverse_pushes, pop_results, push_all, rest, somes,
};
use vstd::prelude::*;

verus! {

type Link<T> = Option<Box<Node<T>>>;

/// One cell of a list: an element and the link to the rest.
pub struct Node<T> {
    elem: T,
    next: Link<T>,
}

/// The elements reachable from a link, front first.
spec fn link_view<T>(link: Link<T>) -> Seq<T>
    decreases link,
{
    match link {
        None => Seq::empty(),
        Some(node) => seq![node.elem].add(link_view(node.next)),
    }
}

/// The elements of a node and of the nodes after it.
pub closed spec fn node_view<T>(node: Node<T>) -> Seq<T> {
    seq![node.elem].add(link_view(node.next))
}

/// A last-in, first-out stack of values of any type.
pub struct List<T> {
    head: Link<T>,
}

impl<T> View for List<T> {
    type V = Seq<T>;

    closed spec fn view(&self) -> Seq<T> {
        link_view(self.head)
    }
}

impl<T> List<T> {
    /// An empty list.
    pub fn new() -> (r: Self)
        ensures
            r@ == Seq::<T>::empty(),
    {
        List { head: None }
    }

    /// Puts `elem` in front of the list.
    pub fn push(&mut self, elem: T)
        ensures
            final(self)@ == seq![elem].add(old(self)@),
    {
        let new_node = Box::new(Node { elem: elem, next: self.head.take() });
        self.head = Some(new_node);
    }

    /// Removes the front element and returns it, or `None` when the list is empty.
    pub fn pop(&mut self) -> (r: Option<T>)
        ensures
            r == front(old(self)@),
            final(self)@ == rest(old(self)@),
    {
        match self.head.take() {
            None => None,
            Some(node) => {
                self.head = node.next;
                Some(node.elem)
            },
        }
    }

    /// The front element, left in place, or `None` when the list is empty.
    pub fn peek(&self) -> (r: Option<&T>)
        ensures
            match r {
                Some(x) => front(self@) == Some(*x),
                None => front(self@) is None,
            },
    {
        match &self.head {
            None => None,
            Some(node) => Some(&node.elem),
        }
    }

    /// A mutable borrow of the front element, or `None` when the list is
    /// empty; what is written through it becomes the front element.
    pub fn peek_mut(&mut self) -> (r: Option<&mut T>)
        ensures
            match r {
                Some(x) => {
                    &&& front(old(self)@) == Some(*x)
                    &&& final(self)@ == old(self)@.update(0, *final(x))
                },
                None => {
                    &&& front(old(self)@) is None
                    &&& final(self)@ == old(self)@
                },
            },
    {
        match &mut self.head {
            None => None,
            Some(node) => Some(&mut node.elem),
        }
    }
}

/// Pushing the elements of `xs` onto a list, first element first, and then
/// popping as many times returns them in reverse order and leaves the list
/// as it was; on a list that started empty, one pop more returns `None`,
/// as does every pop after that.
pub proof fn lemma_list_lifo<T>(l: List<T>, xs: Seq<T>, extra: nat)
    ensures
        pop_results(push_all(l@, xs), xs.len()) == somes(xs.reverse()),
        after_pops(push_all(l@, xs), xs.len()) == l@,
        l@.len() == 0 ==> pop_results(push_all(l@, xs), xs.len() + 1) == somes(xs.reverse()).push(
            None,
        ),
        l@.len() == 0 ==> pop_results(after_pops(push_all(l@, xs), xs.len()), extra) == Seq::new(
            extra,
            |i: int| None::<T>,
        ),
{
    lemma_pops_reverse_pushes(l@, xs);
    if l@.len() == 0 {
        assert(l@ =~= Seq::<T>::empty());
        lemma_pops_reverse_pushes(Seq::<T>::empty(), xs);
        lemma_pop_empty::<T>(extra);
    }
}

impl<T> Drop for List<T> {
    /// Releases the nodes one at a time, detaching each node's successor
    /// before the node is freed, so that a long list is not freed by a
    /// chain of nested calls.
    fn drop(&mut self)
        ensures
            final(self)@ == Seq::<T>::empty(),
        opens_invariants none
        no_unwind
    {
        // A swap rather than `Option::take`: `drop` may only call what
        // cannot unwind, and vstd does not mark `take` so.
        let mut cur_link: Link<T> = None;
        std::mem::swap(&mut self.head, &mut cur_link);
        loop
            decreases link_view(cur_link).len(),
        {
            match cur_link {
                None => break,
                Some(boxed_node) => {
                    let mut node = *boxed_node;
                    let mut rest_link: Link<T> = None;
                    std::mem::swap(&mut node.next, &mut rest_link);
                    cur_link = rest_link;
                },
            }
        }
    }
}

/// Hands out the elements of a list by value, front first, consuming it.
pub struct IntoIter<T>(List<T>);

impl<T> View for IntoIter<T> {
    type V = Seq<T>;

    /// The elements still to come.
    closed spec fn view(&self) -> Seq<T> {
        self.0@
    }
}

impl<T> List<T> {
    /// Turns the list into an iterator over its elements, front first.
    pub fn into_iter(self) -> (r: IntoIter<T>)
        ensures
            r@ == self@,
    {
        IntoIter(self)
    }
}

impl<T> IntoIter<T> {
    /// The next element, or `None` once every element has been handed out.
    pub fn next(&mut self) -> (r: Option<T>)
        ensures
            r == front(old(self)@),
            final(self)@ == rest(old(self)@),
    {
        self.0.pop()
    }
}

/// Walks the elements of a list by shared reference, front first.
pub struct Iter<'a, T> {
    next: Option<&'a Node<T>>,
}

impl<'a, T> View for Iter<'a, T> {
    type V = Seq<T>;

    /// The elements still to come.
    closed spec fn view(&self) -> Seq<T> {
        match self.next {
            None => Seq::empty(),
            Some(node) => node_view(*node),
        }
    }
}

impl<T> List<T> {
    /// An iterator over shared references to the elements, front first.
    pub fn iter(&self) -> (r: Iter<'_, T>)
        ensures
            r@ == self@,
    {
        match &self.head {
            None => Iter { next: None },
            Some(node) => Iter { next: Some(&**node) },
        }
    }
}

impl<'a, T> Iter<'a, T> {
    /// A reference to the next element, or `None` at the end of the list.
    pub fn next(&mut self) -> (r: Option<&'a T>)
        ensures
            match r {
                Some(x) => front(old(self)@) == Some(*x),
                None => front(old(self)@) is None,
            },
            final(self)@ == rest(old(self)@),
    {
        match self.next {
            None => None,
            Some(node) => {
                self.next = match &node.next {
                    None => None,
                    Some(n) => Some(&**n),
                };
                Some(&node.elem)
            },
        }
    }
}

/// Walks the elements of a list by mutable reference, front first.
pub struct IterMut<'a, T> {
    next: Option<&'a mut Node<T>>,
}

impl<'a, T> View for IterMut<'a, T> {
    type V = Seq<T>;

    /// The elements still to come, as they are now.
    closed spec fn view(&self) -> Seq<T> {
        match self.next {
            None => Seq::empty(),
            Some(node) => node_view(*node),
        }
    }
}

impl<'a, T> IterMut<'a, T> {
    /// The node whose element comes next, if any.
    pub closed spec fn cursor(self) -> Option<&'a mut Node<T>> {
        self.next
    }
}

impl<T> List<T> {
    /// An iterator over mutable references to the elements, front first.
    /// Once the iterator is gone, the list holds what its first node (if
    /// any) holds by then, followed by the nodes after it.
    pub fn iter_mut(&mut self) -> (r: IterMut<'_, T>)
        ensures
            r@ == old(self)@,
            match r.cursor() {
                None => final(self)@ == Seq::<T>::empty(),
                Some(n) => final(self)@ == node_view(*final(n)),
            },
    {
        match &mut self.head {
            None => IterMut { next: None },
            Some(node) => IterMut { next: Some(&mut **node) },
        }
    }
}

impl<'a, T> IterMut<'a, T> {
    /// A mutable reference to the next element, or `None` at the end of the
    /// list. The node handed over ends up holding what is finally written
    /// through that reference, followed by what the nodes still to come end
    /// up holding.
    pub fn next(&mut self) -> (r: Option<&'a mut T>)
        ensures
            final(self)@ == rest(old(self)@),
            match (old(self).cursor(), r) {
                (Some(n), Some(x)) => {
                    &&& front(old(self)@) == Some(*x)
                    &&& node_view(*final(n)) == seq![*final(x)].add(
                        match final(self).cursor() {
                            None => Seq::<T>::empty(),
                            Some(m) => node_view(*final(m)),
                        },
                    )
                },
                (None, None) => {
                    &&& front(old(self)@) is None
                    &&& final(self).cursor() is None
                },
                _ => false,
            },
    {
        match self.next.take() {
            None => None,
            Some(node) => {
                self.next = match &mut node.next {
                    None => None,
                    Some(n) => Some(&mut **n),
                };
                Some(&mut node.elem)
            },
        }
    }
}

/// The three iterators of a list, as `iter`, `iter_mut` and `into_iter`
/// hand them out, yield the same elements in the same order under any
/// number of steps: the list's elements front first, then `None`; and after
/// as many steps as the list is long, none of them has anything left.
pub proof fn lemma_walks_agree<'a, 'b, T>(
    l: List<T>,
    by_ref: Iter<'a, T>,
    by_mut: IterMut<'b, T>,
    by_value: IntoIter<T>,
    n: nat,
)
    requires
        by_ref@ == l@,
        by_mut@ == l@,
        by_value@ == l@,
    ensures
        pop_results(by_ref@, n) == pop_results(by_value@, n),
        pop_results(by_mut@, n) == pop_results(by_value@, n),
        pop_results(by_value@, l@.len() + 1) == somes(l@).push(None),
        after_pops(by_ref@, l@.len()) == Seq::<T>::empty(),
        after_pops(by_mut@, l@.len()) == Seq::<T>::empty(),
        after_pops(by_value@, l@.len()) == Seq::<T>::empty(),
{
    lemma_walk_order(l@);
}

/// What a walk with `iter_mut` leaves in a list that held `s`. Step `i`
/// hands out a reference whose final value is `written[i]`, and the nodes
/// from there on end up holding `written[i]` followed by `fins[i + 1]` (the
/// step clause of `IterMut::next`); where the walk stops, the nodes still to
/// come keep what they hold (`fins[k]`). Then the list ends up holding the
/// written values followed by the untouched rest: its length never changes.
pub proof fn lemma_iter_mut_keeps_length<T>(s: Seq<T>, written: Seq<T>, fins: Seq<Seq<T>>)
    requires
        written.len() <= s.len(),
        fins.len() == written.len() + 1,
        forall|i: int| 0 <= i < written.len() ==> #[trigger] fins[i] == seq![written[i]].add(fins[i + 1]),
        fins[written.len() as int] == s.skip(written.len() as int),
    ensures
        fins[0] == written.add(s.skip(written.len() as int)),
        fins[0].len() == s.len(),
{
    lemma_fins_suffix(s, written, fins, 0);
    assert(written.skip(0) =~= written);
}

/// `fins[i]` is the written values from `i` on, followed by the rest.
proof fn lemma_fins_suffix<T>(s: Seq<T>, written: Seq<T>, fins: Seq<Seq<T>>, i: int)
    requires
        0 <= i <= written.len() <= s.len(),
        fins.len() == written.len() + 1,
        forall|k: int| 0 <= k < written.len() ==> #[trigger] fins[k] == seq![written[k]].add(fins[k + 1]),
        fins[written.len() as int] == s.skip(written.len() as int),
    ensures
        fins[i] == written.skip(i).add(s.skip(written.len() as int)),
    decreases written.len() - i,
{
    if i < written.len() {
        lemma_fins_suffix(s, written, fins, i + 1);
        assert(fins[i] == seq![written[i]].add(fins[i + 1]));
        assert(written.skip(i) =~= seq![written[i]].add(written.skip(i + 1)));
        assert(fins[i] =~= written.skip(i).add(s.skip(written.len() as int)));
    } else {
        assert(written.skip(i) =~= Seq::<T>::empty());
        assert(fins[i] =~= written.skip(i).add(s.skip(written.len() as int)));
    }
}

/// Once a walk with `iter_mut` is given up, the nodes it had not reached
/// end up holding what they held then: the elements it did not hand out
/// stay as they are, in order. With `lemma_iter_mut_keeps_length`, this
/// makes the list after any walk, finished or not, the written values
/// followed by the untouched rest.
pub proof fn lemma_abandoned_walk_keeps_rest<'a, T>(it: IterMut<'a, T>)
    requires
        has_resolved(it),
    ensures
        match it.cursor() {
            Some(n) => node_view(*final(n)) == it@,
            None => it@ == Seq::<T>::empty(),
        },
{
}

} // verus!
