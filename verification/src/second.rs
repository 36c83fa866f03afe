//! An exclusively owned stack of values of any type, with a look at the top
//! and three ways to iterate: by value, by reference and by mutable reference.

use crate::model::{pushed, rest, top, top_ref};
use vstd::prelude::*;
use vstd::std_specs::iter::IteratorSpecImpl;

verus! {

/// The way from one node to the next: `None` at the end of the chain. At most
/// one link leads to any node, so the chain has no cycle.
type Link<T> = Option<Box<Node<T>>>;

/// One node of a chain: a value and the link to the node after it.
pub struct Node<T> {
    elem: T,
    next: Link<T>,
}

/// A last-in, first-out stack, held as a singly linked chain in which every
/// node owns the node after it.
pub struct List<T> {
    head: Link<T>,
}

impl<T> Node<T> {
    /// The values reachable through `link`, nearest first.
    spec fn elems(link: Link<T>) -> Seq<T>
        decreases link,
    {
        match link {
            None => Seq::empty(),
            Some(node) => pushed(Node::elems(node.next), node.elem),
        }
    }
}

impl<T> View for Node<T> {
    type V = Seq<T>;

    /// The values held from this node on, this node's first. There is at
    /// least this node's.
    closed spec fn view(&self) -> Seq<T> {
        pushed(Node::elems(self.next), self.elem)
    }
}

impl<T> View for List<T> {
    type V = Seq<T>;

    /// The stacked values, top first.
    closed spec fn view(&self) -> Seq<T> {
        Node::elems(self.head)
    }
}

impl<T> List<T> {
    /// Creates an empty stack.
    pub fn new() -> (list: Self)
        ensures
            list@ == Seq::<T>::empty(),
    {
        List { head: None }
    }

    /// Puts `elem` on top of the stack.
    pub fn push(&mut self, elem: T)
        ensures
            final(self)@ == pushed(old(self)@, elem),
    {
        let next = self.head.take();
        self.head = Some(Box::new(Node { elem, next }));
    }

    /// Removes the value on top and returns it. Returns `None`, and leaves
    /// the stack empty, when there is none.
    pub fn pop(&mut self) -> (elem: Option<T>)
        ensures
            elem == top(old(self)@),
            final(self)@ == rest(old(self)@),
    {
        match self.head.take() {
            None => None,
            Some(boxed_node) => {
                let node = *boxed_node;
                self.head = node.next;
                Some(node.elem)
            },
        }
    }

    /// Returns a reference to the value on top, or `None` when the stack is
    /// empty. The stack stays as it is, so a `pop` that follows removes the
    /// very value that was seen.
    pub fn peek(&mut self) -> (elem: Option<&T>)
        ensures
            elem == top_ref(old(self)@),
            final(self)@ == old(self)@,
    {
        match self.head.as_ref() {
            None => None,
            Some(node) => Some(&node.elem),
        }
    }

    /// Returns a mutable reference to the value on top, or `None` when the
    /// stack is empty. What the caller leaves behind that reference is the
    /// new top; nothing else changes.
    pub fn peek_mut(&mut self) -> (elem: Option<&mut T>)
        ensures
            match elem {
                Some(slot) => top(old(self)@) == Some(*slot) && final(self)@ == pushed(
                    rest(old(self)@),
                    *final(slot),
                ),
                None => top(old(self)@) is None && final(self)@ == old(self)@,
            },
    {
        match self.head.as_mut() {
            None => None,
            Some(node) => Some(&mut node.elem),
        }
    }
}

impl<T> Drop for List<T> {
    /// Takes the chain apart one node at a time: each node is cut off from
    /// the node after it before it is released, so that releasing it reaches
    /// no further, however long the chain is. The stack is left empty.
    fn drop(&mut self)
        ensures
            final(self)@ == Seq::<T>::empty(),
        opens_invariants none
        no_unwind
    {
        let mut cur_link: Link<T> = None;
        core::mem::swap(&mut self.head, &mut cur_link);
        loop
            invariant
                self.head is None,
            decreases cur_link,
        {
            match cur_link {
                None => {
                    break;
                },
                Some(mut boxed_node) => {
                    let mut next: Link<T> = None;
                    core::mem::swap(&mut boxed_node.next, &mut next);
                    cur_link = next;
                },
            }
        }
    }
}

/// An iterator that takes a stack apart and yields its values, top first.
pub struct IntoIter<T>(List<T>);

impl<T> View for IntoIter<T> {
    type V = Seq<T>;

    /// The values still to be yielded, next first: what is left of the
    /// stack.
    closed spec fn view(&self) -> Seq<T> {
        self.0@
    }
}

impl<T> List<T> {
    /// Turns the stack into an iterator that yields its values, top first,
    /// and holds what is left of the stack meanwhile.
    pub fn into_iter(self) -> (iter: IntoIter<T>)
        ensures
            iter@ == self@,
    {
        IntoIter(self)
    }
}

impl<T> Iterator for IntoIter<T> {
    type Item = T;

    /// Removes the value on top of what is left of the stack and yields it.
    /// Yields `None` once the stack is empty, and from then on.
    fn next(&mut self) -> (item: Option<T>)
        ensures
            item == top(old(self)@),
            final(self)@ == rest(old(self)@),
    {
        self.0.pop()
    }
}

/// The values that the iterator will yield are those of its view, in order,
/// and then it ends.
impl<T> IteratorSpecImpl for IntoIter<T> {
    open spec fn obeys_prophetic_iter_laws(&self) -> bool {
        true
    }

    open spec fn remaining(&self) -> Seq<T> {
        self@
    }

    open spec fn will_return_none(&self) -> bool {
        true
    }

    open spec fn decrease(&self) -> Option<nat> {
        Some(self@.len())
    }

    open spec fn initial_value_relation(&self, init: &Self) -> bool {
        self@ == init@
    }

    open spec fn peek(&self, index: int) -> Option<T> {
        if 0 <= index < self@.len() {
            Some(self@[index])
        } else {
            None
        }
    }
}

/// An iterator over shared references to the values of a stack, top first.
/// The stack stays as it is.
pub struct Iter<'a, T: 'a> {
    next: Option<&'a Node<T>>,
}

impl<'a, T> View for Iter<'a, T> {
    type V = Seq<T>;

    /// The values still to be visited, next first.
    closed spec fn view(&self) -> Seq<T> {
        match self.next {
            None => Seq::empty(),
            Some(node) => node@,
        }
    }
}

impl<T> List<T> {
    /// Returns an iterator over shared references to the values, top first.
    /// Each call starts a new pass from the top.
    pub fn iter(&self) -> (iter: Iter<'_, T>)
        ensures
            iter@ == self@,
    {
        match self.head.as_ref() {
            None => Iter { next: None },
            Some(node) => Iter { next: Some(&**node) },
        }
    }
}

impl<'a, T> Iterator for Iter<'a, T> {
    type Item = &'a T;

    /// Yields a reference to the next value and moves on to the node after
    /// it. Yields `None` once the end of the chain is reached, and from then
    /// on.
    fn next(&mut self) -> (item: Option<&'a T>)
        ensures
            item == top_ref(old(self)@),
            final(self)@ == rest(old(self)@),
    {
        match self.next {
            None => None,
            Some(node) => {
                self.next = match node.next.as_ref() {
                    None => None,
                    Some(next) => Some(&**next),
                };
                Some(&node.elem)
            },
        }
    }
}

/// The references that the iterator will yield are those to the values of
/// its view, in order, and then it ends.
impl<'a, T> IteratorSpecImpl for Iter<'a, T> {
    open spec fn obeys_prophetic_iter_laws(&self) -> bool {
        true
    }

    open spec fn remaining(&self) -> Seq<&'a T> {
        self@.map_values(|elem: T| &elem)
    }

    open spec fn will_return_none(&self) -> bool {
        true
    }

    open spec fn decrease(&self) -> Option<nat> {
        Some(self@.len())
    }

    open spec fn initial_value_relation(&self, init: &Self) -> bool {
        self@ == init@
    }

    open spec fn peek(&self, index: int) -> Option<&'a T> {
        if 0 <= index < self@.len() {
            Some(&self@[index])
        } else {
            None
        }
    }
}

/// An iterator over mutable references to the values of a stack, top first.
///
/// It borrows the node that it visits next. A reference that it has yielded
/// is the only way left to that value: the iterator itself has moved on.
pub struct IterMut<'a, T: 'a> {
    next: Option<&'a mut Node<T>>,
}

impl<'a, T> IterMut<'a, T> {
    /// The borrowed node that is visited next, or `None` at the end.
    pub closed spec fn cursor(&self) -> Option<&'a mut Node<T>> {
        self.next
    }

    /// An iterator that is not used any more has given its borrow up: the
    /// node it was to visit next, and those after it, keep the values they
    /// hold now.
    pub proof fn lemma_given_up(self)
        requires
            has_resolved(self),
        ensures
            self.cursor() matches Some(node) ==> *final(node) == *node,
    {
    }
}

impl<'a, T> View for IterMut<'a, T> {
    type V = Seq<T>;

    /// The values still to be visited, next first, as they are now.
    open spec fn view(&self) -> Seq<T> {
        match self.cursor() {
            None => Seq::empty(),
            Some(node) => node@,
        }
    }
}

impl<T> List<T> {
    /// Returns an iterator over mutable references to the values, top first.
    ///
    /// The iterator starts with all the values of the stack before it. When
    /// the borrow ends, the stack holds what the node under the cursor holds
    /// then.
    pub fn iter_mut(&mut self) -> (iter: IterMut<'_, T>)
        ensures
            iter@ == old(self)@,
            iter.cursor() is None <==> old(self)@.len() == 0,
            final(self)@ == (match iter.cursor() {
                None => Seq::empty(),
                Some(node) => final(node)@,
            }),
    {
        match self.head.as_mut() {
            None => IterMut { next: None },
            Some(node) => IterMut { next: Some(&mut **node) },
        }
    }
}

impl<'a, T> Iterator for IterMut<'a, T> {
    type Item = &'a mut T;

    /// Yields a mutable reference to the next value and moves on to the node
    /// after it. Yields `None` once the end of the chain is reached, and from
    /// then on.
    ///
    /// The node that was under the cursor ends up holding what the caller
    /// leaves behind the yielded reference, followed by what the node now
    /// under the cursor ends up holding.
    fn next(&mut self) -> (item: Option<&'a mut T>)
        ensures
            final(self)@ == rest(old(self)@),
            final(self).cursor() is None <==> final(self)@.len() == 0,
            match item {
                Some(slot) => {
                    &&& top(old(self)@) == Some(*slot)
                    &&& old(self).cursor() matches Some(node)
                    &&& final(node)@ == pushed(
                        (match final(self).cursor() {
                            None => Seq::empty(),
                            Some(after) => final(after)@,
                        }),
                        *final(slot),
                    )
                },
                None => top(old(self)@) is None && old(self).cursor() is None,
            },
    {
        match self.next.take() {
            None => None,
            Some(node) => {
                self.next = match node.next.as_mut() {
                    None => None,
                    Some(next) => Some(&mut **next),
                };
                Some(&mut node.elem)
            },
        }
    }
}

/// The general laws of iterators speak of the very references that will be
/// yielded, and no specification can name a mutable reference before it
/// exists. So this iterator does not claim them, and `remaining` says
/// nothing: `next` states its own contract over the values instead.
impl<'a, T> IteratorSpecImpl for IterMut<'a, T> {
    open spec fn obeys_prophetic_iter_laws(&self) -> bool {
        false
    }

    open spec fn remaining(&self) -> Seq<&'a mut T> {
        Seq::empty()
    }

    open spec fn will_return_none(&self) -> bool {
        true
    }

    open spec fn decrease(&self) -> Option<nat> {
        Some(self@.len())
    }

    open spec fn initial_value_relation(&self, init: &Self) -> bool {
        self@ == init@
    }

    open spec fn peek(&self, index: int) -> Option<&'a mut T> {
        None
    }
}

} // verus!
