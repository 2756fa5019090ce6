use linked_lists::second::List;

#[test]
fn second_basics() {
    let mut list = List::new();

    assert_eq!(list.pop(), None);

    list.push(1);
    list.push(2);
    list.push(3);

    assert_eq!(list.pop(), Some(3));
    assert_eq!(list.pop(), Some(2));

    list.push(4);
    list.push(5);

    assert_eq!(list.pop(), Some(5));
    assert_eq!(list.pop(), Some(4));

    assert_eq!(list.pop(), Some(1));
    assert_eq!(list.pop(), None);
}

#[test]
fn second_basic() {
    let mut list = List::new();

    assert_eq!(list.pop(), None);

    list.push(1);
    list.push(2);
    list.push(3);

    assert_eq!(list.pop(), Some(3));
    assert_eq!(list.pop(), Some(2));

    list.push(4);
    list.push(5);

    assert_eq!(list.pop(), Some(5));
    assert_eq!(list.pop(), Some(4));

    assert_eq!(list.pop(), Some(1));
    assert_eq!(list.pop(), None);
}

#[test]
fn second_peek() {
    let mut list = List::new();
    assert_eq!(list.peek(), None);
    assert_eq!(list.peek_mut(), None);
    list.push(1);
    list.push(2);
    list.push(3);

    assert_eq!(list.peek(), Some(&3));
    assert_eq!(list.peek_mut(), Some(&mut 3));

    list.peek_mut().map(|value| *value = 42);

    assert_eq!(list.peek(), Some(&42));
    assert_eq!(list.pop(), Some(42));
}

#[test]
fn second_into_iter() {
    let mut list = List::new();
    list.push(1);
    list.push(2);
    list.push(3);

    let mut iter = list.into_iter();
    assert_eq!(iter.next(), Some(3));
    assert_eq!(iter.next(), Some(2));
    assert_eq!(iter.next(), Some(1));
    assert_eq!(iter.next(), None);
}

#[test]
fn second_iter() {
    let mut list = List::new();
    list.push(1);
    list.push(2);
    list.push(3);

    let mut iter = list.iter();
    assert_eq!(iter.next(), Some(&3));
    assert_eq!(iter.next(), Some(&2));
    assert_eq!(iter.next(), Some(&1));
}

#[test]
fn iter_mut() {
    let mut list = List::new();
    list.push(1);
    list.push(2);
    list.push(3);

    let mut iter = list.iter_mut();
    assert_eq!(iter.next(), Some(&mut 3));
    assert_eq!(iter.next(), Some(&mut 2));
    assert_eq!(iter.next(), Some(&mut 1));
    assert_eq!(iter.next(), None);
}

#[test]
fn second_pops_in_reverse_push_order() {
    let pushed = vec!["a", "b", "c", "d", "b"];
    let mut list = List::new();
    for x in pushed.iter() {
        list.push(x.to_string());
    }
    for x in pushed.iter().rev() {
        assert_eq!(list.pop(), Some(x.to_string()));
    }
    assert_eq!(list.pop(), None);
    assert_eq!(list.pop(), None);
    assert_eq!(list.pop(), None);
}

#[test]
fn second_peek_keeps_length() {
    let mut list = List::new();
    list.push(5);
    list.push(6);
    assert_eq!(list.peek(), Some(&6));
    assert_eq!(list.peek(), Some(&6));
    assert_eq!(list.peek_mut(), Some(&mut 6));
    assert_eq!(list.pop(), Some(6));
    assert_eq!(list.pop(), Some(5));
    assert_eq!(list.pop(), None);
    assert_eq!(list.peek(), None);
}

#[test]
fn second_peek_mut_write_reaches_pop() {
    let mut list = List::new();
    list.push(String::from("x"));
    list.push(String::from("y"));
    if let Some(front) = list.peek_mut() {
        front.push_str("z");
    }
    assert_eq!(list.pop(), Some(String::from("yz")));
    assert_eq!(list.pop(), Some(String::from("x")));
}

#[test]
fn second_iterators_agree() {
    let mut list = List::new();
    for i in 0..10 {
        list.push(i * 3);
    }

    let mut by_ref = Vec::new();
    let mut iter = list.iter();
    while let Some(x) = iter.next() {
        by_ref.push(*x);
    }

    let mut by_mut = Vec::new();
    let mut iter = list.iter_mut();
    while let Some(x) = iter.next() {
        by_mut.push(*x);
    }

    let mut by_value = Vec::new();
    let mut iter = list.into_iter();
    while let Some(x) = iter.next() {
        by_value.push(x);
    }

    let expected: Vec<i32> = (0..10).rev().map(|i| i * 3).collect();
    assert_eq!(by_ref, expected);
    assert_eq!(by_mut, expected);
    assert_eq!(by_value, expected);
}

#[test]
fn second_iteration_keeps_length() {
    let mut list = List::new();
    list.push(1);
    list.push(2);
    list.push(3);

    let mut iter = list.iter();
    iter.next();
    let mut iter = list.iter_mut();
    iter.next();
    iter.next();

    assert_eq!(list.pop(), Some(3));
    assert_eq!(list.pop(), Some(2));
    assert_eq!(list.pop(), Some(1));
    assert_eq!(list.pop(), None);
}

#[test]
fn second_iter_mut_writes_reach_list() {
    let mut list = List::new();
    list.push(1);
    list.push(2);
    list.push(3);

    let mut iter = list.iter_mut();
    while let Some(x) = iter.next() {
        *x *= 10;
    }

    assert_eq!(list.peek(), Some(&30));
    let mut iter = list.into_iter();
    assert_eq!(iter.next(), Some(30));
    assert_eq!(iter.next(), Some(20));
    assert_eq!(iter.next(), Some(10));
    assert_eq!(iter.next(), None);
    assert_eq!(iter.next(), None);
}

#[test]
fn second_empty_iterators() {
    let mut list: List<u8> = List::new();
    assert_eq!(list.iter().next(), None);
    assert_eq!(list.iter_mut().next(), None);
    assert_eq!(list.into_iter().next(), None);
}

#[test]
fn second_drop_long_list() {
    let mut list = List::new();
    for i in 0..200_000u32 {
        list.push(i);
    }
    drop(list);

    let mut list = List::new();
    for i in 0..200_000u32 {
        list.push(i);
    }
    let mut iter = list.into_iter();
    assert_eq!(iter.next(), Some(199_999));
    drop(iter);
}

#[test]
fn second_iter_mut_partial_walk_writes_reach_list() {
    let mut list = List::new();
    list.push(1);
    list.push(2);
    list.push(3);
    list.push(4);

    let mut iter = list.iter_mut();
    iter.next();
    if let Some(x) = iter.next() {
        *x = 30;
    }
    drop(iter);

    let mut iter = list.into_iter();
    assert_eq!(iter.next(), Some(4));
    assert_eq!(iter.next(), Some(30));
    assert_eq!(iter.next(), Some(2));
    assert_eq!(iter.next(), Some(1));
    assert_eq!(iter.next(), None);
}
