use linked_lists::first::List;

#[test]
fn first_basics() {
    let mut list = List::new();

    assert_eq!(list.pop(), None);

    list.push(1);
    list.push(2);
    list.push(3);

    assert_eq!(list.pop(), Some(3));
    assert_eq!(list.pop(), Some(2));

    list.push(4);
    list.push(5);

    assert_eq!(list.pop(), Some(5));
    assert_eq!(list.pop(), Some(4));

    assert_eq!(list.pop(), Some(1));
    assert_eq!(list.pop(), None);
}

#[test]
fn first_basic() {
    let mut list = List::new();

    assert_eq!(list.pop(), None);

    list.push(1);
    list.push(2);
    list.push(3);

    assert_eq!(list.pop(), Some(3));
    assert_eq!(list.pop(), Some(2));

    list.push(4);
    list.push(5);

    assert_eq!(list.pop(), Some(5));
    assert_eq!(list.pop(), Some(4));

    assert_eq!(list.pop(), Some(1));
    assert_eq!(list.pop(), None);
}

#[test]
fn first_pops_in_reverse_push_order() {
    let pushed = [7, -3, 0, 42, i32::MAX, i32::MIN, 7];
    let mut list = List::new();
    for x in pushed.iter() {
        list.push(*x);
    }
    for x in pushed.iter().rev() {
        assert_eq!(list.pop(), Some(*x));
    }
    assert_eq!(list.pop(), None);
}

#[test]
fn first_pop_empty_repeatedly() {
    let mut list = List::new();
    for _ in 0..5 {
        assert_eq!(list.pop(), None);
    }
    list.push(9);
    assert_eq!(list.pop(), Some(9));
    for _ in 0..5 {
        assert_eq!(list.pop(), None);
    }
}

#[test]
fn first_drop_long_list() {
    let mut list = List::new();
    for i in 0..200_000 {
        list.push(i);
    }
    drop(list);
}
