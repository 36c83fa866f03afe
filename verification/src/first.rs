//! An exclusively owned stack of `i32` values.

use crate::model::{pushed, rest, top};
use vstd::prelude::*;

verus! {

/// A link of the chain: the end of it, or the node that comes next. At most
/// one link leads to any node, so the chain has no cycle and ends in `Empty`.
enum Link {
    Empty,
    More(Box<Node>),
}

struct Node {
    elem: i32,
    next: Link,
}

/// A last-in, first-out stack of `i32` values, held as a singly linked chain
/// in which every node owns the node after it.
pub struct List {
    head: Link,
}

impl Link {
    /// The values reachable through this link, nearest first.
    spec fn elems(self) -> Seq<i32>
        decreases self,
    {
        match self {
            Link::Empty => Seq::empty(),
            Link::More(node) => pushed(node.next.elems(), node.elem),
        }
    }
}

impl View for List {
    type V = Seq<i32>;

    /// The stacked values, top first.
    closed spec fn view(&self) -> Seq<i32> {
        self.head.elems()
    }
}

impl List {
    /// Creates an empty stack.
    pub fn new() -> (list: Self)
        ensures
            list@ == Seq::<i32>::empty(),
    {
        List { head: Link::Empty }
    }

    /// Puts `elem` on top of the stack.
    pub fn push(&mut self, elem: i32)
        ensures
            final(self)@ == pushed(old(self)@, elem),
    {
        let mut next = Link::Empty;
        core::mem::swap(&mut self.head, &mut next);
        self.head = Link::More(Box::new(Node { elem, next }));
    }

    /// Removes the value on top and returns it. Returns `None`, and leaves
    /// the stack empty, when there is none.
    pub fn pop(&mut self) -> (elem: Option<i32>)
        ensures
            elem == top(old(self)@),
            final(self)@ == rest(old(self)@),
    {
        let mut head = Link::Empty;
        core::mem::swap(&mut self.head, &mut head);
        match head {
            Link::Empty => None,
            Link::More(boxed_node) => {
                let node = *boxed_node;
                self.head = node.next;
                Some(node.elem)
            },
        }
    }
}

impl Drop for List {
    /// Takes the chain apart one node at a time: each node is cut off from
    /// the node after it before it is released, so that releasing it reaches
    /// no further, however long the chain is. The stack is left empty.
    fn drop(&mut self)
        ensures
            final(self)@ == Seq::<i32>::empty(),
        opens_invariants none
        no_unwind
    {
        let mut cur_link = Link::Empty;
        core::mem::swap(&mut self.head, &mut cur_link);
        loop
            invariant
                self.head is Empty,
            decreases cur_link,
        {
            match cur_link {
                Link::Empty => {
                    break;
                },
                Link::More(mut boxed_node) => {
                    let mut next = Link::Empty;
                    core::mem::swap(&mut boxed_node.next, &mut next);
                    cur_link = next;
                },
            }
        }
    }
}

} // verus!
