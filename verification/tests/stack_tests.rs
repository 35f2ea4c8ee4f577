use calculator::stack::Stack;

#[test]
fn push_pop_returns_reverse_order() {
    let mut stack: Stack<i32> = Stack::new();
    stack.push(1);
    stack.push(2);
    stack.push(3);
    assert_eq!(stack.pop(), Some(3));
    assert_eq!(stack.pop(), Some(2));
    assert_eq!(stack.pop(), Some(1));
    assert_eq!(stack.pop(), None);
}

#[test]
fn pop_and_peek_on_empty_are_absent() {
    let mut stack: Stack<u8> = Stack::new();
    assert_eq!(stack.peek(), None);
    assert_eq!(stack.pop(), None);
}

#[test]
fn peek_does_not_mutate() {
    let mut stack: Stack<i32> = Stack::new();
    stack.push(10);
    stack.push(20);
    assert_eq!(stack.peek(), Some(&20));
    assert_eq!(stack.peek(), Some(&20));
    assert_eq!(stack.pop(), Some(20));
    assert_eq!(stack.peek(), Some(&10));
}

#[test]
fn reversed_flips_pop_order() {
    let mut stack: Stack<i32> = Stack::new();
    stack.push(1);
    stack.push(2);
    stack.push(3);
    let mut reversed = stack.reversed();
    assert_eq!(reversed.pop(), Some(1));
    assert_eq!(reversed.pop(), Some(2));
    assert_eq!(reversed.pop(), Some(3));
    assert_eq!(reversed.pop(), None);
}

#[test]
fn reversed_twice_restores_order() {
    let mut stack: Stack<i32> = Stack::new();
    for value in [5, 6, 7, 8] {
        stack.push(value);
    }
    let mut round_trip = stack.reversed().reversed();
    assert_eq!(round_trip.pop(), Some(8));
    assert_eq!(round_trip.pop(), Some(7));
    assert_eq!(round_trip.pop(), Some(6));
    assert_eq!(round_trip.pop(), Some(5));
    assert_eq!(round_trip.pop(), None);
}

#[test]
fn iter_walks_top_to_bottom_without_mutating() {
    let mut stack: Stack<i32> = Stack::new();
    stack.push(1);
    stack.push(2);
    stack.push(3);
    let mut iter = stack.iter();
    assert_eq!(iter.next(), Some(&3));
    assert_eq!(iter.next(), Some(&2));
    assert_eq!(iter.next(), Some(&1));
    assert_eq!(iter.next(), None);
    assert_eq!(stack.pop(), Some(3));
    assert_eq!(stack.pop(), Some(2));
    assert_eq!(stack.pop(), Some(1));
}

#[test]
fn long_stack_drains_without_overflow() {
    let mut stack: Stack<u64> = Stack::new();
    for value in 0..100_000u64 {
        stack.push(value);
    }
    let mut expected = 100_000u64;
    while let Some(value) = stack.pop() {
        expected -= 1;
        assert_eq!(value, expected);
    }
    assert_eq!(expected, 0);
}

#[test]
fn long_stack_releases_without_overflow() {
    let mut stack: Stack<u64> = Stack::new();
    for value in 0..200_000u64 {
        stack.push(value);
    }
    drop(stack);
}
