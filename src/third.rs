//! A persistent list: prepending and taking the tail build new lists that
//! share their nodes with the old one through reference counting.
use crate::model::{front, rest};
use std::rc::Rc;
use vstd::prelude::*;

verus! {

/// Relies on `Rc::clone`: the new handle points to the same allocation,
/// so it holds the same value; the share count goes up by one.
#[verifier::external_body]
fn share<T>(rc: &Rc<T>) -> (r: Rc<T>)
    ensures
        r == *rc,
{
    Rc::clone(rc)
}

type Link<T> = Option<Rc<Node<T>>>;

struct Node<T> {
    elem: T,
    next: Link<T>,
}

/// The elements reachable from a link, front first.
spec fn link_view<T>(link: Link<T>) -> Seq<T>
    decreases link,
{
    match link {
        None => Seq::empty(),
        Some(node) => seq![node.elem].add(link_view(node.next)),
    }
}

/// Relies on `Rc::try_unwrap`: it hands back the value when the given handle
/// was the only one, and otherwise the handle itself; it never panics.
#[verifier::external_body]
fn try_reclaim<T>(rc: Rc<T>) -> (r: Result<T, Rc<T>>)
    ensures
        match r {
            Ok(v) => v == *rc,
            Err(back) => back == rc,
        },
    opens_invariants none
    no_unwind
{
    Rc::try_unwrap(rc)
}

/// A second handle to the node a link refers to, if any.
fn share_link<T>(link: &Link<T>) -> (r: Link<T>)
    ensures
        r == *link,
{
    match link {
        None => None,
        Some(node) => Some(share(node)),
    }
}

/// An immutable list whose tails may be shared with other lists.
pub struct List<T> {
    head: Link<T>,
}

impl<T> View for List<T> {
    type V = Seq<T>;

    closed spec fn view(&self) -> Seq<T> {
        link_view(self.head)
    }
}

impl<T> List<T> {
    /// An empty list.
    pub fn new() -> (r: Self)
        ensures
            r@ == Seq::<T>::empty(),
    {
        List { head: None }
    }

    /// A new list with `elem` in front of the elements of this one, whose
    /// nodes it shares.
    pub fn prepend(&self, elem: T) -> (r: List<T>)
        ensures
            r@ == seq![elem].add(self@),
    {
        List { head: Some(Rc::new(Node { elem: elem, next: share_link(&self.head) })) }
    }

    /// A new list of all elements but the front one, sharing their nodes
    /// with this list; the tail of an empty list is empty.
    pub fn tail(&self) -> (r: List<T>)
        ensures
            r@ == rest(self@),
    {
        match &self.head {
            None => List { head: None },
            Some(node) => List { head: share_link(&node.next) },
        }
    }

    /// The front element, or `None` when the list is empty.
    pub fn head(&self) -> (r: Option<&T>)
        ensures
            match r {
                Some(x) => front(self@) == Some(*x),
                None => front(self@) is None,
            },
    {
        match &self.head {
            None => None,
            Some(node) => Some(&node.elem),
        }
    }
}

/// Gives up one share of each node along `link`, front first: a node whose
/// last handle this was is taken apart, with its successor detached before
/// the node is freed; at the first node that some other list or node still
/// holds, the walk stops, since the rest of the chain is that holder's too.
fn release<T>(link: Link<T>)
    opens_invariants none
    no_unwind
{
    let mut cur_link = link;
    loop
        decreases link_view(cur_link).len(),
    {
        match cur_link {
            None => break,
            Some(shared) => {
                match try_reclaim(shared) {
                    Ok(node) => {
                        let mut node = node;
                        let mut rest_link: Link<T> = None;
                        std::mem::swap(&mut node.next, &mut rest_link);
                        cur_link = rest_link;
                    },
                    Err(_) => break,
                }
            },
        }
    }
}

impl<T> Drop for List<T> {
    /// Hands the chain to `release`, so that a long list is freed by a loop
    /// rather than by a chain of nested calls.
    fn drop(&mut self)
        ensures
            final(self)@ == Seq::<T>::empty(),
        opens_invariants none
        no_unwind
    {
        // A swap rather than `Option::take`: `drop` may only call what
        // cannot unwind, and vstd does not mark `take` so.
        let mut detached: Link<T> = None;
        std::mem::swap(&mut self.head, &mut detached);
        release(detached);
    }
}

/// Walks the elements of a list by shared reference, front first.
pub struct Iter<'a, T> {
    next: Option<&'a Node<T>>,
}

impl<'a, T> View for Iter<'a, T> {
    type V = Seq<T>;

    /// The elements still to come.
    closed spec fn view(&self) -> Seq<T> {
        match self.next {
            None => Seq::empty(),
            Some(node) => seq![node.elem].add(link_view(node.next)),
        }
    }
}

impl<T> List<T> {
    /// An iterator over shared references to the elements, front first.
    pub fn iter(&self) -> (r: Iter<'_, T>)
        ensures
            r@ == self@,
    {
        match &self.head {
            None => Iter { next: None },
            Some(node) => Iter { next: Some(&**node) },
        }
    }
}

impl<'a, T> Iter<'a, T> {
    /// A reference to the next element, or `None` at the end of the list.
    pub fn next(&mut self) -> (r: Option<&'a T>)
        ensures
            match r {
                Some(x) => front(old(self)@) == Some(*x),
                None => front(old(self)@) is None,
            },
            final(self)@ == rest(old(self)@),
    {
        match self.next {
            None => None,
            Some(node) => {
                self.next = match &node.next {
                    None => None,
                    Some(n) => Some(&**n),
                };
                Some(&node.elem)
            },
        }
    }
}

} // verus!
