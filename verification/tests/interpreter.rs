use forth::interpreter::Interpreter;

#[test]
fn interpreter_test_push() {
    let mut interpreter = Interpreter::new();

    interpreter.parse("1".into()).exec().unwrap();
    assert_eq!(interpreter.stack.size(), 1);
    assert_eq!(interpreter.stack.pop().unwrap(), 1);
}

#[test]
fn interpreter_test_dot() {
    let mut interpreter = Interpreter::new();

    interpreter.parse("1 1 .".into()).exec().unwrap();
    assert_eq!(interpreter.stack.size(), 1);
    assert_eq!(interpreter.stack.pop().unwrap(), 1);
}

#[test]
fn interpreter_test_add() {
    let mut interpreter = Interpreter::new();

    interpreter.parse("1 1 1".into()).exec().unwrap();
    assert_eq!(interpreter.stack.size(), 3);

    interpreter.parse("+".into()).exec().unwrap();
    assert_eq!(interpreter.stack.size(), 2);
    assert_eq!(interpreter.stack.pop().unwrap(), 2);
}

#[test]
fn interpreter_test_sub() {
    let mut interpreter = Interpreter::new();

    interpreter.parse("1 1 1".into()).exec().unwrap();
    assert_eq!(interpreter.stack.size(), 3);

    interpreter.parse("-".into()).exec().unwrap();
    assert_eq!(interpreter.stack.size(), 2);
    assert_eq!(interpreter.stack.pop().unwrap(), 0);
}

#[test]
fn interpreter_test_mul() {
    let mut interpreter = Interpreter::new();

    interpreter.parse("1 1 1".into()).exec().unwrap();
    assert_eq!(interpreter.stack.size(), 3);

    interpreter.parse("*".into()).exec().unwrap();
    assert_eq!(interpreter.stack.size(), 2);
    assert_eq!(interpreter.stack.pop().unwrap(), 1);
}

#[test]
fn interpreter_test_eq() {
    let mut interpreter = Interpreter::new();

    interpreter.parse("1 1 =".into()).exec().unwrap();
    assert_eq!(interpreter.stack.size(), 1);
    assert_eq!(interpreter.stack.pop().unwrap(), -1);

    interpreter.parse("1 2 =".into()).exec().unwrap();
    assert_eq!(interpreter.stack.size(), 1);
    assert_eq!(interpreter.stack.pop().unwrap(), 0);
}

#[test]
fn interpreter_test_gt() {
    let mut interpreter = Interpreter::new();

    interpreter.parse("1 2 >".into()).exec().unwrap();
    assert_eq!(interpreter.stack.size(), 1);
    assert_eq!(interpreter.stack.pop().unwrap(), 0);

    interpreter.parse("2 1 >".into()).exec().unwrap();
    assert_eq!(interpreter.stack.size(), 1);
    assert_eq!(interpreter.stack.pop().unwrap(), -1);
}

#[test]
fn interpreter_test_lt() {
    let mut interpreter = Interpreter::new();

    interpreter.parse("2 1 <".into()).exec().unwrap();
    assert_eq!(interpreter.stack.size(), 1);
    assert_eq!(interpreter.stack.pop().unwrap(), 0);

    interpreter.parse("1 2 <".into()).exec().unwrap();
    assert_eq!(interpreter.stack.size(), 1);
    assert_eq!(interpreter.stack.pop().unwrap(), -1);
}

#[test]
fn test_swap() {
    let mut interpreter = Interpreter::new();

    interpreter.parse("2 1 swap".into()).exec().unwrap();
    assert_eq!(interpreter.stack.size(), 2);
    assert_eq!(interpreter.stack.pop().unwrap(), 2);
}

#[test]
fn test_rot() {
    let mut interpreter = Interpreter::new();

    interpreter.parse("1 2 3 rot".into()).exec().unwrap();
    assert_eq!(interpreter.stack.size(), 3);
    assert_eq!(interpreter.stack.pop().unwrap(), 1);
    assert_eq!(interpreter.stack.pop().unwrap(), 3);
    assert_eq!(interpreter.stack.pop().unwrap(), 2);
}

#[test]
fn test_dup() {
    let mut interpreter = Interpreter::new();

    interpreter.parse("1 2 3 dup".into()).exec().unwrap();
    assert_eq!(interpreter.stack.size(), 4);
    assert_eq!(interpreter.stack.pop().unwrap(), 3);
}

#[test]
fn test_over() {
    let mut interpreter = Interpreter::new();

    interpreter.parse("1 2 3 over".into()).exec().unwrap();
    assert_eq!(interpreter.stack.size(), 4);
    assert_eq!(interpreter.stack.pop().unwrap(), 2);
}

#[test]
fn test_drop() {
    let mut interpreter = Interpreter::new();

    interpreter.parse("1 2 3 drop".into()).exec().unwrap();
    assert_eq!(interpreter.stack.size(), 2);
    assert_eq!(interpreter.stack.pop().unwrap(), 2);
}

#[test]
fn test_push_after_underflow() {
    let mut interpreter = Interpreter::new();

    let result = interpreter.parse("1 . .".into()).exec();
    assert!(result.is_err());

    interpreter.parse("1".into()).exec().unwrap();
    assert_eq!(interpreter.stack.size(), 1);
    assert_eq!(interpreter.stack.pop().unwrap(), 1);
}

#[test]
fn test_variable() {
    let mut interpreter = Interpreter::new();

    let result = interpreter.parse(": foo 100 ;".into()).exec();
    assert!(result.is_ok(), "{}", result.err().unwrap().message());

    interpreter.parse("foo".into()).exec().unwrap();
    assert_eq!(interpreter.stack.size(), 1);
    assert_eq!(interpreter.stack.pop().unwrap(), 100);
}

#[test]
fn test_multiple_variables() {
    let mut interpreter = Interpreter::new();

    let result = interpreter.parse(": foo 100 ; : bar 100 ;".into()).exec();
    assert!(result.is_ok(), "{}", result.err().unwrap().message());

    interpreter.parse("foo bar".into()).exec().unwrap();
    assert_eq!(interpreter.stack.size(), 2);
    assert_eq!(interpreter.stack.pop().unwrap(), 100);
    assert_eq!(interpreter.stack.pop().unwrap(), 100);
}
