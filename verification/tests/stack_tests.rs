use chip_8_emu::stack::Stack;

#[test]
fn push_test() {
    let mut stack: Stack<u16> = Stack::new();
    stack.push(16);

    assert!(stack.vector[0] == 16);
}

#[test]
fn pop_returns_last_pushed() {
    let mut stack: Stack<u16> = Stack::new();
    stack.push(0x202);
    stack.push(0x20A);

    assert_eq!(stack.pop(), Some(0x20A));
    assert_eq!(stack.pop(), Some(0x202));
    assert_eq!(stack.pop(), None);
}
