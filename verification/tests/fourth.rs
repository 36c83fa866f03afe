use lists::fourth::{List, Node};
use std::rc::Rc;

#[test]
fn fourth_deque_order() {
    let mut list = List::new();
    list.push_front(1);
    list.push_front(2);
    assert_eq!(list.pop_front(), Some(2));
    assert_eq!(list.pop_front(), Some(1));
    assert_eq!(list.pop_front(), None);
}

#[test]
fn fourth_basics() {
    let mut list = List::new();
    assert_eq!(list.pop_front(), None);

    list.push_front(1);
    list.push_front(2);
    list.push_front(3);

    assert_eq!(list.pop_front(), Some(3));
    assert_eq!(list.pop_front(), Some(2));

    list.push_front(4);
    list.push_front(5);

    assert_eq!(list.pop_front(), Some(5));
    assert_eq!(list.pop_front(), Some(4));

    assert_eq!(list.pop_front(), Some(1));
    assert_eq!(list.pop_front(), None);
    assert_eq!(list.pop_front(), None);
}

#[test]
fn fourth_emptied_deque_can_be_filled_again() {
    let mut list = List::new();
    for round in 0..4 {
        for v in 0..50 {
            list.push_front(round * 100 + v);
        }
        for v in (0..50).rev() {
            assert_eq!(list.pop_front(), Some(round * 100 + v));
        }
        assert_eq!(list.pop_front(), None);
    }
}

#[test]
fn fourth_pops_come_in_reverse_order_of_pushes() {
    let values = vec!["a", "b", "c", "d", "e"];
    let mut list = List::new();
    for v in values.iter() {
        list.push_front(v.to_string());
    }
    for v in values.iter().rev() {
        assert_eq!(list.pop_front(), Some(v.to_string()));
    }
    assert_eq!(list.pop_front(), None);
}

#[test]
fn fourth_popped_nodes_are_given_back() {
    let probe = Rc::new(());
    let mut list = List::new();
    for _ in 0..10 {
        list.push_front(Rc::clone(&probe));
    }
    assert_eq!(Rc::strong_count(&probe), 11);
    let mut left = 11;
    while let Some(value) = list.pop_front() {
        drop(value);
        left -= 1;
        assert_eq!(Rc::strong_count(&probe), left);
    }
    assert_eq!(Rc::strong_count(&probe), 1);
    assert!(list.pop_front().is_none());
}

#[test]
fn fourth_discarded_deque_releases_its_values() {
    let probe = Rc::new(());
    let mut list = List::new();
    for _ in 0..10 {
        list.push_front(Rc::clone(&probe));
    }
    assert!(list.pop_front().is_some());
    drop(list);
    assert_eq!(Rc::strong_count(&probe), 1);
}

#[test]
fn fourth_long_deque_is_discarded() {
    let mut list = List::new();
    let mut i: u64 = 0;
    while i < 300_000 {
        list.push_front(i);
        i += 1;
    }
    assert_eq!(list.pop_front(), Some(299_999));
    drop(list);
}

#[test]
fn fourth_new_node_holds_its_value() {
    let probe = Rc::new(5);
    let node = Node::new(Rc::clone(&probe));
    assert_eq!(Rc::strong_count(&probe), 2);
    drop(node);
    assert_eq!(Rc::strong_count(&probe), 1);
}
