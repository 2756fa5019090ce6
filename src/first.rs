//! A stack of `i32` values kept in a singly-linked list of boxed nodes.
use crate::model::{
    after_pops, front, lemma_pop_empty, lemma_pops_reverse_pushes, pop_results, push_all, rest, somes,
};
use vstd::prelude::*;

verus! {

/// A slot that either owns the next node or marks the end of the list.
enum Link {
    Empty,
    More(Box<Node>),
}

impl Link {
    /// Leaves `Empty` in the slot and hands back what it held.
    fn take(&mut self) -> (r: Link)
        ensures
            r == *old(self),
            *final(self) == Link::Empty,
        opens_invariants none
        no_unwind
    {
        let mut vacant = Link::Empty;
        std::mem::swap(self, &mut vacant);
        vacant
    }
}

struct Node {
    elem: i32,
    next: Link,
}

/// The elements reachable from a link, front first.
spec fn link_view(link: Link) -> Seq<i32>
    decreases link,
{
    match link {
        Link::Empty => Seq::empty(),
        Link::More(node) => seq![node.elem].add(link_view(node.next)),
    }
}

/// A last-in, first-out stack of `i32` values.
pub struct List {
    head: Link,
}

impl View for List {
    type V = Seq<i32>;

    closed spec fn view(&self) -> Seq<i32> {
        link_view(self.head)
    }
}

impl List {
    /// An empty list.
    pub fn new() -> (r: Self)
        ensures
            r@ == Seq::<i32>::empty(),
    {
        List { head: Link::Empty }
    }

    /// Puts `elem` in front of the list.
    pub fn push(&mut self, elem: i32)
        ensures
            final(self)@ == seq![elem].add(old(self)@),
    {
        let new_node = Box::new(Node { elem: elem, next: self.head.take() });
        self.head = Link::More(new_node);
    }

    /// Removes the front element and returns it, or `None` when the list is empty.
    pub fn pop(&mut self) -> (r: Option<i32>)
        ensures
            r == front(old(self)@),
            final(self)@ == rest(old(self)@),
    {
        match self.head.take() {
            Link::Empty => None,
            Link::More(node) => {
                self.head = node.next;
                Some(node.elem)
            },
        }
    }
}

/// Pushing the elements of `xs` onto a list, first element first, and then
/// popping as many times returns them in reverse order and leaves the list
/// as it was; on a list that started empty, one pop more returns `None`,
/// as does every pop after that.
pub proof fn lemma_list_lifo(l: List, xs: Seq<i32>, extra: nat)
    ensures
        pop_results(push_all(l@, xs), xs.len()) == somes(xs.reverse()),
        after_pops(push_all(l@, xs), xs.len()) == l@,
        l@.len() == 0 ==> pop_results(push_all(l@, xs), xs.len() + 1) == somes(xs.reverse()).push(
            None,
        ),
        l@.len() == 0 ==> pop_results(after_pops(push_all(l@, xs), xs.len()), extra) == Seq::new(
            extra,
            |i: int| None::<i32>,
        ),
{
    lemma_pops_reverse_pushes(l@, xs);
    if l@.len() == 0 {
        assert(l@ =~= Seq::<i32>::empty());
        lemma_pops_reverse_pushes(Seq::<i32>::empty(), xs);
        lemma_pop_empty::<i32>(extra);
    }
}

impl Drop for List {
    /// Releases the nodes one at a time, so that a long list is freed
    /// without a call per node.
    fn drop(&mut self)
        ensures
            final(self)@ == Seq::<i32>::empty(),
        opens_invariants none
        no_unwind
    {
        let mut cur_link = self.head.take();
        loop
            decreases link_view(cur_link).len(),
        {
            match cur_link {
                Link::Empty => break,
                Link::More(boxed_node) => {
                    let mut node = *boxed_node;
                    cur_link = node.next.take();
                },
            }
        }
    }
}

} // verus!
