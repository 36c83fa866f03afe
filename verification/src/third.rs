//! A persistent list: handles on immutable chains that share their common
//! tails.

use crate::model::{pushed, rest, top_ref};
use std::rc::Rc;
use vstd::prelude::*;
use vstd::std_specs::iter::IteratorSpecImpl;

verus! {

/// The way from one node to the next: `None` at the end of the chain. Any
/// number of links may lead to one node, which lives as long as one of them
/// does.
type Link<T> = Option<Rc<Node<T>>>;

/// One node of a chain. It is never changed once it is made.
struct Node<T> {
    elem: T,
    next: Link<T>,
}

/// A handle on an immutable singly linked list. Lists made from one another
/// share the nodes of their common tail: no value is ever copied.
pub struct List<T> {
    head: Link<T>,
}

impl<T> Node<T> {
    /// The values reachable through `link`, nearest first.
    spec fn elems(link: Link<T>) -> Seq<T>
        decreases link,
    {
        match link {
            None => Seq::empty(),
            Some(node) => pushed(Node::elems(node.next), node.elem),
        }
    }

    /// A further link to the node that `link` leads to, if it leads to one.
    /// The node is shared, not copied.
    fn share(link: &Link<T>) -> (shared: Link<T>)
        ensures
            shared == *link,
    {
        match link {
            None => None,
            Some(node) => Some(Rc::clone(node)),
        }
    }

    /// Gives up one link to a node, by `Rc::into_inner`. Where it was the
    /// last link to the node, the node itself comes back; where other links
    /// still lead to it, the node stays where it is and `None` comes back.
    /// Which of the two happens depends on the number of links, which is not
    /// modelled here: the contract says only that a node that comes back is
    /// the one that the link led to. The call does not unwind.
    #[verifier::external_body]
    fn give_up(link: Rc<Node<T>>) -> (node: Option<Node<T>>)
        ensures
            node matches Some(last) ==> last == *link,
        opens_invariants none
        no_unwind
    {
        Rc::into_inner(link)
    }
}

impl<T> View for List<T> {
    type V = Seq<T>;

    /// The listed values, first one first.
    closed spec fn view(&self) -> Seq<T> {
        Node::elems(self.head)
    }
}

impl<T> List<T> {
    /// Creates an empty list.
    pub fn new() -> (list: Self)
        ensures
            list@ == Seq::<T>::empty(),
    {
        List { head: None }
    }

    /// Returns a list that holds `elem` and, after it, the values of this
    /// list. The new list shares all the nodes of this one, which stays as it
    /// is.
    pub fn append(&self, elem: T) -> (list: List<T>)
        ensures
            list@ == pushed(self@, elem),
    {
        List { head: Some(Rc::new(Node { elem, next: Node::share(&self.head) })) }
    }

    /// Returns the list of all values but the first, which shares its nodes
    /// with this one. The tail of an empty list is empty.
    pub fn tail(&self) -> (list: List<T>)
        ensures
            list@ == rest(self@),
    {
        match &self.head {
            None => List { head: None },
            Some(node) => List { head: Node::share(&node.next) },
        }
    }

    /// Returns a reference to the first value, or `None` when the list is
    /// empty.
    pub fn head(&self) -> (elem: Option<&T>)
        ensures
            elem == top_ref(self@),
    {
        match &self.head {
            None => None,
            Some(node) => Some(&node.elem),
        }
    }
}

impl<T> Drop for List<T> {
    /// Lets go of the chain one node at a time. The link to a node is given
    /// up; if it was the last one, the node is reclaimed alone, cut off from
    /// the node after it, and the same is done with the link to that node. At
    /// the first node that another list still reaches the walk ends: that
    /// node and all after it stay. No step reaches further than one node,
    /// however long the chain is. This handle is left empty.
    fn drop(&mut self)
        ensures
            final(self)@ == Seq::<T>::empty(),
        opens_invariants none
        no_unwind
    {
        let mut cur_link: Link<T> = None;
        core::mem::swap(&mut self.head, &mut cur_link);
        loop
            invariant
                self.head is None,
            decreases cur_link,
        {
            match cur_link {
                None => {
                    break;
                },
                Some(link) => {
                    match Node::give_up(link) {
                        None => {
                            break;
                        },
                        Some(node) => {
                            cur_link = node.next;
                        },
                    }
                },
            }
        }
    }
}

/// An iterator over shared references to the values of a list, first one
/// first. The list stays as it is.
pub struct Iter<'a, T: 'a> {
    next: Option<&'a Node<T>>,
}

impl<'a, T> View for Iter<'a, T> {
    type V = Seq<T>;

    /// The values still to be visited, next first.
    closed spec fn view(&self) -> Seq<T> {
        match self.next {
            None => Seq::empty(),
            Some(node) => pushed(Node::elems(node.next), node.elem),
        }
    }
}

impl<T> List<T> {
    /// Returns an iterator over shared references to the values, first one
    /// first. Each call starts a new pass from the head.
    pub fn iter<'a>(&'a self) -> (iter: Iter<'a, T>)
        ensures
            iter@ == self@,
    {
        match self.head.as_ref() {
            None => Iter { next: None },
            Some(node) => Iter { next: Some(&**node) },
        }
    }
}

impl<'a, T> Iterator for Iter<'a, T> {
    type Item = &'a T;

    /// Yields a reference to the next value and moves on to the node after
    /// it. Yields `None` once the end of the chain is reached, and from then
    /// on.
    fn next(&mut self) -> (item: Option<&'a T>)
        ensures
            item == top_ref(old(self)@),
            final(self)@ == rest(old(self)@),
    {
        match self.next {
            None => None,
            Some(node) => {
                self.next = match node.next.as_ref() {
                    None => None,
                    Some(next) => Some(&**next),
                };
                Some(&node.elem)
            },
        }
    }
}

/// The references that the iterator will yield are those to the values of
/// its view, in order, and then it ends.
impl<'a, T> IteratorSpecImpl for Iter<'a, T> {
    open spec fn obeys_prophetic_iter_laws(&self) -> bool {
        true
    }

    open spec fn remaining(&self) -> Seq<&'a T> {
        self@.map_values(|elem: T| &elem)
    }

    open spec fn will_return_none(&self) -> bool {
        true
    }

    open spec fn decrease(&self) -> Option<nat> {
        Some(self@.len())
    }

    open spec fn initial_value_relation(&self, init: &Self) -> bool {
        self@ == init@
    }

    open spec fn peek(&self, index: int) -> Option<&'a T> {
        if 0 <= index < self@.len() {
            Some(&self@[index])
        } else {
            None
        }
    }
}

} // verus!
