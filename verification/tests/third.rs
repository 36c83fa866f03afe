use lists::third::List;
use std::rc::Rc;

#[test]
fn third_basics() {
    let list = List::new();
    assert_eq!(list.head(), None);

    let list = list.append(1).append(2).append(3);
    assert_eq!(list.head(), Some(&3));

    let list = list.tail();
    assert_eq!(list.head(), Some(&2));

    let list = list.tail();
    assert_eq!(list.head(), Some(&1));

    let list = list.tail();
    assert_eq!(list.head(), None);

    // Make sure empty tail works
    let list = list.tail();
    assert_eq!(list.head(), None);
}

#[test]
fn third_iter() {
    let list = List::new().append(1).append(2).append(3);

    let mut iter = list.iter();
    assert_eq!(iter.next(), Some(&3));
    for _ in iter {}
}

#[test]
fn third_lists_share_their_tails() {
    let l0 = List::new();
    let l1 = l0.append(1);
    let l2 = l1.append(2);
    let l3 = l2.append(3);

    assert_eq!(l3.head(), Some(&3));
    assert_eq!(l3.tail().head(), Some(&2));
    assert_eq!(l3.tail().tail().head(), Some(&1));
    assert_eq!(l3.tail().tail().tail().head(), None);
    assert_eq!(l3.tail().tail().tail().tail().head(), None);

    // The lists that the longer ones were made from are as they were.
    assert_eq!(l0.head(), None);
    assert_eq!(l1.head(), Some(&1));
    assert_eq!(l2.head(), Some(&2));
    assert_eq!(l1.iter().count(), 1);
    assert_eq!(l2.iter().count(), 2);
    assert_eq!(l3.iter().count(), 3);
}

#[test]
fn third_lists_grown_from_one_tail_do_not_interfere() {
    let l1 = List::new().append(1);
    let l2 = l1.append(2);
    let l2b = l1.append(20);

    assert_eq!(l2.head(), Some(&2));
    assert_eq!(l2b.head(), Some(&20));
    assert_eq!(l2.tail().head(), Some(&1));
    assert_eq!(l2b.tail().head(), Some(&1));
    assert_eq!(l1.head(), Some(&1));

    let a: Vec<i32> = l2.iter().copied().collect();
    let b: Vec<i32> = l2b.iter().copied().collect();
    assert_eq!(a, vec![2, 1]);
    assert_eq!(b, vec![20, 1]);
}

#[test]
fn third_tail_of_empty_list_is_empty() {
    let list: List<i32> = List::new();
    let list = list.tail();
    assert_eq!(list.head(), None);
    let list = list.tail().tail();
    assert_eq!(list.head(), None);
    assert_eq!(list.iter().next(), None);
}

#[test]
fn third_iter_yields_every_value_then_ends_and_starts_anew() {
    let list = List::new().append(1).append(2).append(3);
    let mut iter = list.iter();
    assert_eq!(iter.next(), Some(&3));
    assert_eq!(iter.next(), Some(&2));
    assert_eq!(iter.next(), Some(&1));
    assert_eq!(iter.next(), None);
    assert_eq!(iter.next(), None);

    let mut one = list.iter();
    let mut other = list.iter();
    assert_eq!(one.next(), Some(&3));
    assert_eq!(one.next(), Some(&2));
    assert_eq!(other.next(), Some(&3));
    assert_eq!(one.next(), Some(&1));
    assert_eq!(other.next(), Some(&2));
}

#[test]
fn third_shared_nodes_are_not_copied() {
    let probe = Rc::new(());
    let l1 = List::new().append(Rc::clone(&probe));
    assert_eq!(Rc::strong_count(&probe), 2);
    let l2 = l1.append(Rc::new(()));
    let l3 = l1.tail().append(Rc::new(()));
    let l4 = l2.tail();
    assert_eq!(Rc::strong_count(&probe), 2);
    assert!(l3.tail().head().is_none());
    assert!(Rc::ptr_eq(l4.head().unwrap(), &probe));
    assert!(Rc::ptr_eq(l2.tail().head().unwrap(), l1.head().unwrap()));
}

#[test]
fn third_node_lives_as_long_as_one_list_reaches_it() {
    let probe = Rc::new(());
    let l1 = List::new().append(Rc::clone(&probe));
    let l2 = l1.append(Rc::new(()));
    let l2b = l1.append(Rc::new(()));
    assert_eq!(Rc::strong_count(&probe), 2);
    drop(l1);
    assert_eq!(Rc::strong_count(&probe), 2);
    drop(l2);
    assert_eq!(Rc::strong_count(&probe), 2);
    assert!(Rc::ptr_eq(l2b.tail().head().unwrap(), &probe));
    drop(l2b);
    assert_eq!(Rc::strong_count(&probe), 1);
}

#[test]
fn third_teardown_releases_every_value_of_an_unshared_list() {
    let probe = Rc::new(());
    let mut list = List::new();
    for _ in 0..10 {
        list = list.append(Rc::clone(&probe));
    }
    assert_eq!(Rc::strong_count(&probe), 11);
    drop(list);
    assert_eq!(Rc::strong_count(&probe), 1);
}

#[test]
fn third_long_chain_is_torn_down_without_recursion() {
    let mut list = List::new();
    let mut i: u64 = 0;
    while i < 300_000 {
        list = list.append(i);
        i += 1;
    }
    assert_eq!(list.head(), Some(&299_999));
    drop(list);
}

#[test]
fn third_long_shared_chain_is_torn_down_without_recursion() {
    let mut list = List::new();
    let mut i: u64 = 0;
    while i < 200_000 {
        list = list.append(i);
        i += 1;
    }
    let other = list.tail().append(7);
    drop(list);
    assert_eq!(other.head(), Some(&7));
    assert_eq!(other.tail().head(), Some(&199_998));
    drop(other);
}
