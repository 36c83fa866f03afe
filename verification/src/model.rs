//! The behaviour that all the containers of this crate share, stated over
//! sequences: a container holds a sequence of values whose first value is the
//! one on top (the head, the front), and every operation adds or removes
//! there.

use vstd::prelude::*;

verus! {

/// The values held after `v` is put on top of `s`.
pub open spec fn pushed<T>(s: Seq<T>, v: T) -> Seq<T> {
    seq![v] + s
}

/// The value on top of `s`, or `None` when `s` holds nothing.
pub open spec fn top<T>(s: Seq<T>) -> Option<T> {
    if s.len() > 0 {
        Some(s[0])
    } else {
        None
    }
}

/// The value on top of `s` as a shared reference, or `None` when `s` holds
/// nothing.
pub open spec fn top_ref<'a, T>(s: Seq<T>) -> Option<&'a T> {
    if s.len() > 0 {
        Some(&s[0])
    } else {
        None
    }
}

/// The values held after the top of `s` is removed. Removing from nothing
/// leaves nothing.
pub open spec fn rest<T>(s: Seq<T>) -> Seq<T> {
    if s.len() > 0 {
        s.drop_first()
    } else {
        s
    }
}

/// The values held after each value of `vs` is put on top of `s`, in the order
/// of `vs`.
pub open spec fn pushed_all<T>(s: Seq<T>, vs: Seq<T>) -> Seq<T>
    decreases vs.len(),
{
    if vs.len() == 0 {
        s
    } else {
        pushed(pushed_all(s, vs.drop_last()), vs.last())
    }
}

/// The values held after the top of `s` is removed `k` times.
pub open spec fn rest_after<T>(s: Seq<T>, k: nat) -> Seq<T>
    decreases k,
{
    if k == 0 {
        s
    } else {
        rest(rest_after(s, (k - 1) as nat))
    }
}

/// Putting a value on top adds one to the number of values held. Removing the
/// top takes one away, except that nothing stays nothing.
pub proof fn lemma_sizes<T>(s: Seq<T>, v: T)
    ensures
        pushed(s, v).len() == s.len() + 1,
        s.len() > 0 ==> rest(s).len() == s.len() - 1,
        s.len() == 0 ==> rest(s).len() == 0,
{
}

/// Nothing is on top of an empty sequence, and removing from it leaves it
/// empty, however often that is done.
pub proof fn lemma_empty_stays_empty<T>(k: nat)
    ensures
        top(Seq::<T>::empty()) is None,
        rest(Seq::<T>::empty()) == Seq::<T>::empty(),
        rest_after(Seq::<T>::empty(), k) == Seq::<T>::empty(),
    decreases k,
{
    if k > 0 {
        lemma_empty_stays_empty::<T>((k - 1) as nat);
    }
}

/// What was put on top last is on top, and removing it gives back what was
/// held before.
pub proof fn lemma_push_then_pop<T>(s: Seq<T>, v: T)
    ensures
        top(pushed(s, v)) == Some(v),
        rest(pushed(s, v)) == s,
{
}

/// Two containers made by putting different values on top of the same `s` do
/// not interfere: each shows its own value on top, and beneath it both hold
/// `s` as it was.
pub proof fn lemma_extensions_are_independent<T>(s: Seq<T>, a: T, b: T)
    ensures
        top(pushed(s, a)) == Some(a),
        top(pushed(s, b)) == Some(b),
        rest(pushed(s, a)) == s,
        rest(pushed(s, b)) == s,
{
    lemma_push_then_pop(s, a);
    lemma_push_then_pop(s, b);
}

/// A look at the top and a removal agree: what a look at the top of `s`
/// shows is the value that a removal from `s` yields, and a look finds nothing
/// exactly where a removal finds nothing. A look leaves `s` as it is, so this
/// holds of a look and the removal that follows it.
pub proof fn lemma_peek_then_pop<T>(s: Seq<T>)
    ensures
        match top_ref(s) {
            Some(seen) => top(s) == Some(*seen),
            None => top(s) is None,
        },
{
}

/// Removing `k` times drops the first `k` values, or all of them when fewer
/// are held.
pub proof fn lemma_rest_after<T>(s: Seq<T>, k: nat)
    ensures
        k <= s.len() ==> rest_after(s, k) == s.subrange(k as int, s.len() as int),
        k >= s.len() ==> rest_after(s, k) == Seq::<T>::empty(),
    decreases k,
{
    if k > 0 {
        let j = (k - 1) as nat;
        lemma_rest_after(s, j);
        if k <= s.len() {
            assert(s.subrange(j as int, s.len() as int).drop_first() =~= s.subrange(
                k as int,
                s.len() as int,
            ));
        }
    }
}

/// Putting the values of `vs` on top of `s` one after the other leaves them
/// above `s` in reverse order.
pub proof fn lemma_pushed_all<T>(s: Seq<T>, vs: Seq<T>)
    ensures
        pushed_all(s, vs) == vs.reverse() + s,
    decreases vs.len(),
{
    if vs.len() > 0 {
        lemma_pushed_all(s, vs.drop_last());
    }
}

/// Last in, first out: after the values of `vs` are put on an empty container
/// one after the other, the removal that follows `k` earlier ones yields the
/// value that was put in `k`-th from last, and the removal that follows
/// `vs.len()` earlier ones finds nothing.
pub proof fn lemma_lifo<T>(vs: Seq<T>, k: nat)
    ensures
        k < vs.len() ==> top(rest_after(pushed_all(Seq::empty(), vs), k)) == Some(
            vs[vs.len() - 1 - k],
        ),
        k >= vs.len() ==> top(rest_after(pushed_all(Seq::empty(), vs), k)) is None,
{
    let s = pushed_all(Seq::empty(), vs);
    lemma_pushed_all(Seq::empty(), vs);
    lemma_rest_after(s, k);
}

/// An iteration over `s.len()` values yields exactly those values, in order,
/// and then ends: the step that follows `k` earlier ones yields `s[k]` while
/// `k < s.len()`; from then on every step yields `None`, and nothing is left
/// to visit.
pub proof fn lemma_exhaustion<T>(s: Seq<T>, k: nat)
    ensures
        k < s.len() ==> top(rest_after(s, k)) == Some(s[k as int]),
        k >= s.len() ==> top(rest_after(s, k)) is None && rest_after(s, k) == Seq::<T>::empty(),
{
    lemma_rest_after(s, k);
}

} // verus!
