use forth::stack::Stack;

#[test]
fn stack_test_push() {
    let mut s: Stack = Stack::new();
    s.push(1);
    assert_eq!(1, s.size());
}

#[test]
fn test_pop() {
    let mut s: Stack = Stack::new();
    s.push(1);
    s.push(2);
    let val = s.pop().unwrap();
    assert_eq!(2, val);
    assert_eq!(1, s.size());
}

#[test]
fn test_pop_empty() {
    let mut s: Stack = Stack::new();
    s.push(1);
    s.push(2);

    let val = s.pop().unwrap();
    assert_eq!(2, val);
    assert_eq!(1, s.size());

    let val = s.pop().unwrap();
    assert_eq!(1, val);
    assert!(s.is_empty());

    let result = s.pop();
    assert!(result.is_err());
}

#[test]
fn test_peek() {
    let mut s: Stack = Stack::new();
    s.push(1);
    s.push(2);

    let val = s.peek();
    assert_eq!(2, val);
}

#[test]
fn test_peek_empty() {
    let mut s: Stack = Stack::new();
    s.push(1);
    s.pop().unwrap();
    assert!(s.is_empty());

    let val = s.peek();
    assert_eq!(-1, val);
}
