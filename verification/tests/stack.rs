use ste::lock_free_stack::{LockFreeStack, Node};

#[test]
fn pop_returns_most_recent_push() {
    let mut stack: LockFreeStack<u32> = LockFreeStack::new();
    stack.push(Node::new(1));
    stack.push(Node::new(2));
    stack.push(Node::new(3));
    assert_eq!(stack.pop().unwrap().into_value(), 3);
    assert_eq!(stack.pop().unwrap().into_value(), 2);
    stack.push(Node::new(4));
    assert_eq!(stack.pop().unwrap().into_value(), 4);
    assert_eq!(stack.pop().unwrap().into_value(), 1);
    assert!(stack.pop().is_none());
}

#[test]
fn pop_on_empty_reports_empty() {
    let mut stack: LockFreeStack<u8> = LockFreeStack::new();
    assert!(stack.pop().is_none());
    assert!(stack.pop().is_none());
    stack.push(Node::new(9));
    assert_eq!(stack.pop().unwrap().into_value(), 9);
    assert!(stack.pop().is_none());
}

#[test]
fn push_reports_empty_transition_exactly() {
    let mut stack: LockFreeStack<u32> = LockFreeStack::new();
    assert!(stack.push(Node::new(10)));
    assert!(!stack.push(Node::new(11)));
    assert!(!stack.push(Node::new(12)));
    stack.pop();
    stack.pop();
    assert!(!stack.push(Node::new(13)));
    stack.pop();
    stack.pop();
    assert!(stack.push(Node::new(14)));
}

#[test]
fn drain_reverses_submission_order() {
    let mut stack: LockFreeStack<u32> = LockFreeStack::new();
    for value in [1, 2, 3] {
        stack.push(Node::new(value));
    }
    let mut drained = Vec::new();
    while let Some(node) = stack.pop() {
        drained.push(node.into_value());
    }
    assert_eq!(drained, vec![3, 2, 1]);
    drained.reverse();
    assert_eq!(drained, vec![1, 2, 3]);
}
