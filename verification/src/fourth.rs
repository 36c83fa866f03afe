//! A doubly linked deque whose nodes are reached through more than one link.
//!
//! Every node is led to by two links: by `head` or by the `next` of the node
//! before it, and by `tail` or by the `prev` of the node after it. The nodes
//! live in the slots of an arena that the deque owns, and a link is the number
//! of a slot. A node stays in its slot for as long as a link leads to it, so
//! it can be taken out only after both links to it have been cut.
//!
//! Access to a node goes through the arena and borrows all of it. So no two
//! accesses to a node can be live at once, and the conflict that a check at
//! run time would have to catch cannot arise.

use crate::model::{pushed, rest, top};
use vstd::prelude::*;

verus! {

/// A link to a node: the number of its slot, or `None` for no node.
type Link = Option<usize>;

/// One node of the chain: a value, the link to the node after it and the link
/// back to the node before it.
pub struct Node<T> {
    elem: T,
    next: Link,
    prev: Link,
}

/// The store of the nodes: numbered slots, each of which holds a node or
/// nothing.
struct Arena<T> {
    slots: Vec<Option<Node<T>>>,
    /// The slots that hold nothing, ready to be used again.
    vacant: Vec<usize>,
}

/// A deque held as a doubly linked chain of shared nodes.
pub struct List<T> {
    head: Link,
    tail: Link,
    arena: Arena<T>,
    /// The slots of the chain's nodes, front first.
    chain: Ghost<Seq<usize>>,
}

impl<T> Node<T> {
    /// The value that the node holds.
    pub closed spec fn elem(&self) -> T {
        self.elem
    }

    /// Whether a link leaves the node, forwards or backwards.
    pub closed spec fn linked(&self) -> bool {
        self.next is Some || self.prev is Some
    }

    /// Creates a node that holds `elem` and is linked to no other node.
    pub fn new(elem: T) -> (node: Self)
        ensures
            node.elem() == elem,
            !node.linked(),
    {
        Node { elem, prev: None, next: None }
    }
}

impl<T> View for Arena<T> {
    type V = Map<usize, Node<T>>;

    /// The nodes held, each under the number of its slot.
    closed spec fn view(&self) -> Map<usize, Node<T>> {
        Map::new(
            |slot: usize| slot < self.slots@.len() && self.slots@[slot as int] is Some,
            |slot: usize| self.slots@[slot as int]->0,
        )
    }
}

impl<T> Arena<T> {
    /// The arena is in order: `vacant` lists exactly the slots that hold
    /// nothing, each of them once.
    spec fn wf(&self) -> bool {
        &&& self.vacant@.no_duplicates()
        &&& forall|j: int|
            0 <= j < self.vacant@.len() ==> (#[trigger] self.vacant@[j]) < self.slots@.len()
                && self.slots@[self.vacant@[j] as int] is None
        &&& forall|slot: usize|
            slot < self.slots@.len() && (#[trigger] self.slots@[slot as int]) is None
                ==> self.vacant@.contains(slot)
    }

    /// Creates an arena without slots.
    fn new() -> (arena: Self)
        ensures
            arena.wf(),
            arena@ == Map::<usize, Node<T>>::empty(),
    {
        Arena { slots: Vec::new(), vacant: Vec::new() }
    }

    /// Puts `node` into a slot that held nothing and returns the slot.
    fn place(&mut self, node: Node<T>) -> (slot: usize)
        requires
            old(self).wf(),
        ensures
            final(self).wf(),
            !old(self)@.dom().contains(slot),
            final(self)@ == old(self)@.insert(slot, node),
    {
        match self.vacant.pop() {
            Some(slot) => {
                self.slots[slot] = Some(node);
                assert forall|other: usize|
                    other < self.slots@.len() && (#[trigger] self.slots@[other as int])
                        is None implies self.vacant@.contains(other) by {
                    let j = choose|j: int|
                        0 <= j < old(self).vacant@.len() && old(self).vacant@[j] == other;
                    assert(self.vacant@[j] == other);
                }
                slot
            },
            None => {
                let slot = self.slots.len();
                self.slots.push(Some(node));
                slot
            },
        }
    }

    /// Takes the node out of `slot`, which holds nothing from then on and can
    /// be used again.
    fn reclaim(&mut self, slot: usize) -> (node: Node<T>)
        requires
            old(self).wf(),
            old(self)@.dom().contains(slot),
        ensures
            final(self).wf(),
            node == old(self)@[slot],
            final(self)@ == old(self)@.remove(slot),
    {
        let node = self.slots[slot].take().unwrap();
        self.vacant.push(slot);
        assert forall|other: usize|
            other < self.slots@.len() && (#[trigger] self.slots@[other as int])
                is None implies self.vacant@.contains(other) by {
            if other == slot {
                assert(self.vacant@[self.vacant@.len() - 1] == slot);
            } else {
                let j = choose|j: int|
                    0 <= j < old(self).vacant@.len() && old(self).vacant@[j] == other;
                assert(self.vacant@[j] == other);
            }
        }
        node
    }

    /// Gives access to the node in `slot`, to read it or to change it. What
    /// the caller leaves behind the reference is what the slot holds from then
    /// on.
    fn borrow_mut(&mut self, slot: usize) -> (node: &mut Node<T>)
        requires
            old(self).wf(),
            old(self)@.dom().contains(slot),
        ensures
            *node == old(self)@[slot],
            final(self).wf(),
            final(self)@ == old(self)@.insert(slot, *final(node)),
    {
        self.slots[slot].as_mut().unwrap()
    }
}

/// The link to the `k`-th node of `chain`, or `None` where the chain has no
/// such node.
spec fn link_at(chain: Seq<usize>, k: int) -> Link {
    if 0 <= k < chain.len() {
        Some(chain[k])
    } else {
        None
    }
}

/// Whether `chain` lists, front first, the slots of one doubly linked chain
/// that is all there is in `nodes`: the nodes are linked to their neighbours
/// in both directions, the first has nothing before it and `head` leads to
/// it, the last has nothing after it and `tail` leads to it, and `nodes` holds
/// no node outside the chain.
spec fn is_chain<T>(nodes: Map<usize, Node<T>>, head: Link, tail: Link, chain: Seq<usize>) -> bool {
    &&& chain.no_duplicates()
    &&& forall|k: int| 0 <= k < chain.len() ==> nodes.dom().contains(#[trigger] chain[k])
    &&& forall|slot: usize| #[trigger] nodes.dom().contains(slot) ==> chain.contains(slot)
    &&& forall|k: int|
        0 <= k < chain.len() ==> nodes[#[trigger] chain[k]].next == link_at(chain, k + 1)
    &&& forall|k: int|
        0 <= k < chain.len() ==> nodes[#[trigger] chain[k]].prev == link_at(chain, k - 1)
    &&& head == link_at(chain, 0)
    &&& tail == link_at(chain, chain.len() - 1)
}

/// The values of the nodes of `chain`, front first.
spec fn values<T>(nodes: Map<usize, Node<T>>, chain: Seq<usize>) -> Seq<T> {
    Seq::new(chain.len(), |k: int| nodes[chain[k]].elem)
}

/// A chain stays one when a node in a fresh slot is linked in before its
/// first node, in both directions, and it then holds the new value in front of
/// the others.
proof fn lemma_linked_in<T>(
    nodes: Map<usize, Node<T>>,
    head: Link,
    tail: Link,
    chain: Seq<usize>,
    slot: usize,
    elem: T,
    after: Map<usize, Node<T>>,
)
    requires
        is_chain(nodes, head, tail, chain),
        !nodes.dom().contains(slot),
        after == (match head {
            Some(first) => nodes.insert(slot, Node { elem, next: None, prev: None }).insert(
                first,
                Node { elem: nodes[first].elem, next: nodes[first].next, prev: Some(slot) },
            ).insert(slot, Node { elem, next: head, prev: None }),
            None => nodes.insert(slot, Node { elem, next: None, prev: None }),
        }),
    ensures
        is_chain(
            after,
            Some(slot),
            if head is Some {
                tail
            } else {
                Some(slot)
            },
            seq![slot] + chain,
        ),
        values(after, seq![slot] + chain) == pushed(values(nodes, chain), elem),
{
    let longer = seq![slot] + chain;
    assert forall|k: int| 1 <= k < longer.len() implies longer[k] == chain[k - 1] by {}
    assert forall|other: usize| #[trigger] after.dom().contains(other) implies longer.contains(
        other,
    ) by {
        if other == slot {
            assert(longer[0] == other);
        } else {
            let j = choose|j: int| 0 <= j < chain.len() && chain[j] == other;
            assert(longer[j + 1] == other);
        }
    }
    assert(values(after, longer) =~= pushed(values(nodes, chain), elem));
}

/// A chain stays one when its first node is cut from the node after it, in
/// both directions, and taken out, and it then holds the other values.
proof fn lemma_cut_off<T>(
    nodes: Map<usize, Node<T>>,
    head: Link,
    tail: Link,
    chain: Seq<usize>,
    after: Map<usize, Node<T>>,
)
    requires
        is_chain(nodes, head, tail, chain),
        chain.len() > 0,
        after == (match nodes[chain[0]].next {
            Some(second) => nodes.insert(
                second,
                Node { elem: nodes[second].elem, next: nodes[second].next, prev: None },
            ).remove(chain[0]),
            None => nodes.remove(chain[0]),
        }),
    ensures
        is_chain(
            after,
            nodes[chain[0]].next,
            if nodes[chain[0]].next is Some {
                tail
            } else {
                None
            },
            chain.drop_first(),
        ),
        values(after, chain.drop_first()) == rest(values(nodes, chain)),
        top(values(nodes, chain)) == Some(nodes[chain[0]].elem),
{
    let shorter = chain.drop_first();
    assert forall|k: int| 0 <= k < shorter.len() implies shorter[k] == chain[k + 1] by {}
    assert forall|other: usize| #[trigger] after.dom().contains(other) implies shorter.contains(
        other,
    ) by {
        let j = choose|j: int| 0 <= j < chain.len() && chain[j] == other;
        assert(shorter[j - 1] == other);
    }
    assert(values(after, shorter) =~= rest(values(nodes, chain)));
}

/// The number of links that lead to the node in `slot`: `head` and `tail`,
/// where they do, and the nodes whose `next` or whose `prev` does.
spec fn links_to<T>(nodes: Map<usize, Node<T>>, head: Link, tail: Link, slot: usize) -> nat {
    let from_head: nat = if head == Some(slot) { 1 } else { 0 };
    let from_tail: nat = if tail == Some(slot) { 1 } else { 0 };
    from_head + from_tail + nodes.dom().filter(|from: usize| nodes[from].next == Some(slot)).len()
        + nodes.dom().filter(|from: usize| nodes[from].prev == Some(slot)).len()
}

/// In a chain two links lead to every node, one from each side, and none
/// leads to a slot that holds no node.
proof fn lemma_links_to<T>(
    nodes: Map<usize, Node<T>>,
    head: Link,
    tail: Link,
    chain: Seq<usize>,
    slot: usize,
)
    requires
        is_chain(nodes, head, tail, chain),
    ensures
        links_to(nodes, head, tail, slot) == (if nodes.dom().contains(slot) {
            2nat
        } else {
            0nat
        }),
{
    let forwards = nodes.dom().filter(|from: usize| nodes[from].next == Some(slot));
    let backwards = nodes.dom().filter(|from: usize| nodes[from].prev == Some(slot));
    if nodes.dom().contains(slot) {
        // The node is the `k`-th of the chain. Forwards only the node before
        // it leads to it, or `head`; backwards only the node after it, or
        // `tail`.
        let k = choose|k: int| 0 <= k < chain.len() && chain[k] == slot;
        let before: Set<usize> = if k > 0 {
            set![chain[k - 1]]
        } else {
            Set::empty()
        };
        let behind: Set<usize> = if k < chain.len() - 1 {
            set![chain[k + 1]]
        } else {
            Set::empty()
        };
        assert forall|from: usize| forwards.contains(from) == before.contains(from) by {
            if nodes.dom().contains(from) {
                let j = choose|j: int| 0 <= j < chain.len() && chain[j] == from;
                assert(nodes[chain[j]].next == link_at(chain, j + 1));
            }
        }
        assert forall|from: usize| backwards.contains(from) == behind.contains(from) by {
            if nodes.dom().contains(from) {
                let j = choose|j: int| 0 <= j < chain.len() && chain[j] == from;
                assert(nodes[chain[j]].prev == link_at(chain, j - 1));
            }
        }
        assert(forwards =~= before);
        assert(backwards =~= behind);
    } else {
        // Every link of the chain leads to a node of the chain.
        assert forall|from: usize| !forwards.contains(from) && !backwards.contains(from) by {
            if nodes.dom().contains(from) {
                let j = choose|j: int| 0 <= j < chain.len() && chain[j] == from;
                assert(nodes[chain[j]].next == link_at(chain, j + 1));
                assert(nodes[chain[j]].prev == link_at(chain, j - 1));
            }
        }
        assert(forwards =~= Set::<usize>::empty());
        assert(backwards =~= Set::<usize>::empty());
    }
}

impl<T> View for List<T> {
    type V = Seq<T>;

    /// The values of the deque, front first.
    closed spec fn view(&self) -> Seq<T> {
        values(self.arena@, self.chain@)
    }
}

impl<T> List<T> {
    /// The deque is well formed: the arena is in order, exactly one doubly
    /// linked chain runs from `head` to `tail`, and every node that the arena
    /// holds is on it.
    pub closed spec fn wf(&self) -> bool {
        self.arena.wf() && is_chain(self.arena@, self.head, self.tail, self.chain@)
    }

    /// The slot of the node at the front, or `None` when the deque is empty.
    pub closed spec fn front_slot(&self) -> Link {
        self.head
    }

    /// Whether the arena holds a node in `slot`.
    pub closed spec fn holds_node(&self, slot: usize) -> bool {
        self.arena@.dom().contains(slot)
    }

    /// The number of nodes that the arena holds.
    pub closed spec fn nodes_held(&self) -> nat {
        self.arena@.dom().len()
    }

    /// The number of links that lead to the node in `slot`, which is what a
    /// count of the references to that node shows: `head` and `tail`, where
    /// they lead to it, and the nodes whose `next` or whose `prev` does.
    pub closed spec fn strong_count(&self, slot: usize) -> nat {
        links_to(self.arena@, self.head, self.tail, slot)
    }

    /// Nothing leaks and nothing dangles. The arena holds one node for each
    /// value of the deque and no other, so an empty deque holds none. Two links
    /// lead to every node that is held, one from each side, and no link leads
    /// to a slot that holds none: a node is out of the arena exactly when the
    /// count of the links to it is zero.
    pub proof fn lemma_no_leak(self, slot: usize)
        requires
            self.wf(),
        ensures
            self.nodes_held() == self@.len(),
            self.front_slot() is None <==> self@.len() == 0,
            self.front_slot() matches Some(front) ==> self.holds_node(front),
            self.strong_count(slot) == (if self.holds_node(slot) {
                2nat
            } else {
                0nat
            }),
    {
        lemma_links_to(self.arena@, self.head, self.tail, self.chain@, slot);
        self.chain@.unique_seq_to_set();
        assert(self.arena@.dom() =~= self.chain@.to_set());
    }

    /// Creates an empty deque.
    pub fn new() -> (list: Self)
        ensures
            list.wf(),
            list@ == Seq::<T>::empty(),
    {
        List { head: None, tail: None, arena: Arena::new(), chain: Ghost(Seq::empty()) }
    }

    /// Puts `elem` at the front of the deque.
    ///
    /// The new node and the node that was first are linked to each other in
    /// both directions. Into an empty deque the new node comes as first and
    /// last at once.
    pub fn push_front(&mut self, elem: T)
        requires
            old(self).wf(),
        ensures
            final(self).wf(),
            final(self)@ == pushed(old(self)@, elem),
    {
        let new_head = self.arena.place(Node::new(elem));
        match self.head.take() {
            Some(old_head) => {
                self.arena.borrow_mut(old_head).prev = Some(new_head);
                self.arena.borrow_mut(new_head).next = Some(old_head);
                self.head = Some(new_head);
            },
            None => {
                self.tail = Some(new_head);
                self.head = Some(new_head);
            },
        }
        proof {
            self.chain@ = seq![new_head] + old(self).chain@;
            lemma_linked_in(
                old(self).arena@,
                old(self).head,
                old(self).tail,
                old(self).chain@,
                new_head,
                elem,
                self.arena@,
            );
        }
    }

    /// Removes the value at the front of the deque and returns it, or returns
    /// `None` when the deque is empty.
    ///
    /// The removed node and the node after it are cut from each other in both
    /// directions, so that no link leads to the removed node any more and it
    /// can be taken out of the arena. Where no node comes after it the deque
    /// becomes empty, and `tail` is cleared as well.
    pub fn pop_front(&mut self) -> (elem: Option<T>)
        requires
            old(self).wf(),
        ensures
            final(self).wf(),
            elem == top(old(self)@),
            final(self)@ == rest(old(self)@),
            old(self).front_slot() matches Some(removed) ==> !final(self).holds_node(removed)
                && final(self).strong_count(removed) == 0,
    {
        match self.head.take() {
            None => None,
            Some(old_head) => {
                match self.arena.borrow_mut(old_head).next.take() {
                    Some(new_head) => {
                        self.arena.borrow_mut(new_head).prev.take();
                        self.head = Some(new_head);
                    },
                    None => {
                        self.tail.take();
                    },
                }
                let node = self.arena.reclaim(old_head);
                proof {
                    self.chain@ = old(self).chain@.drop_first();
                    let nodes = old(self).arena@;
                    assert(self.arena@ =~= (match nodes[old_head].next {
                        Some(second) => nodes.insert(
                            second,
                            Node { elem: nodes[second].elem, next: nodes[second].next, prev: None },
                        ).remove(old_head),
                        None => nodes.remove(old_head),
                    }));
                    lemma_cut_off(
                        old(self).arena@,
                        old(self).head,
                        old(self).tail,
                        old(self).chain@,
                        self.arena@,
                    );
                    lemma_links_to(self.arena@, self.head, self.tail, self.chain@, old_head);
                }
                Some(node.elem)
            },
        }
    }
}

} // verus!
