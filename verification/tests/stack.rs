use untitled_programming_language_project::vm::stack::Stack;

#[test]
fn empty_stack_pops_nothing() {
    let mut stack: Stack<usize> = Stack::new();
    assert_eq!(None, stack.pop())
}

#[test]
fn pop_returns_last_pushed_element() {
    for t in [0usize, 1, 7, usize::MAX] {
        let mut s = Stack::new();
        s.push(t);
        assert_eq!(Some(t), s.pop());
    }
}

#[test]
fn pop_after_push_leaves_stack_unchanged() {
    for items in [vec![], vec![3usize], vec![1, 2, 3], vec![9, 9, 0, 4]] {
        let before = Stack::from_stacked_vec(items.clone());
        let mut s = Stack::from_stacked_vec(items);
        s.push(0);
        s.pop();
        assert!(s == before);
    }
}

#[test]
fn peek_shows_the_top_and_keeps_it() {
    let mut s = Stack::from_stacked_vec(vec![1usize, 2]);
    assert_eq!(s.peek(), Some(&2));
    assert_eq!(s.len(), 2);
    assert_eq!(s.pop(), Some(2));
    assert_eq!(s.peek(), Some(&1));
    let empty: Stack<usize> = Stack::default();
    assert_eq!(empty.peek(), None);
}
