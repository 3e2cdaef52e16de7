use forth::interp::Interp;

#[test]
fn interp_test_push() {
    let mut interp = Interp::new();
    let input = String::from("1");
    interp.parse(input);
    interp.exec().unwrap();
    assert_eq!(interp.stack.size(), 1);
    assert_eq!(interp.stack.pop().unwrap(), 1);
}

#[test]
fn interp_test_dot() {
    let mut interp = Interp::new();
    let input = String::from("1 1 .");
    interp.parse(input);
    interp.exec().unwrap();
    assert_eq!(interp.stack.size(), 1);
    assert_eq!(interp.stack.pop().unwrap(), 1);
}

#[test]
fn interp_test_add() {
    let mut interp = Interp::new();
    let input = String::from("1 1 1");
    interp.parse(input);
    interp.exec().unwrap();
    assert_eq!(interp.stack.size(), 3);

    let input = String::from("+");
    interp.parse(input);
    interp.exec().unwrap();
    assert_eq!(interp.stack.size(), 2);
    assert_eq!(interp.stack.pop().unwrap(), 2);
}

#[test]
fn interp_test_sub() {
    let mut interp = Interp::new();
    let input = String::from("1 1 1");
    interp.parse(input);
    interp.exec().unwrap();
    assert_eq!(interp.stack.size(), 3);

    let input = String::from("-");
    interp.parse(input);
    interp.exec().unwrap();
    assert_eq!(interp.stack.size(), 2);
    assert_eq!(interp.stack.pop().unwrap(), 0);
}

#[test]
fn interp_test_mul() {
    let mut interp = Interp::new();
    let input = String::from("1 1 1");
    interp.parse(input);
    interp.exec().unwrap();
    assert_eq!(interp.stack.size(), 3);

    let input = String::from("*");
    interp.parse(input);
    interp.exec().unwrap();
    assert_eq!(interp.stack.size(), 2);
    assert_eq!(interp.stack.pop().unwrap(), 1);
}

#[test]
fn interp_test_eq() {
    let mut interp = Interp::new();

    let input = String::from("1 1 =");
    interp.parse(input);
    interp.exec().unwrap();
    assert_eq!(interp.stack.size(), 1);
    assert_eq!(interp.stack.pop().unwrap(), -1);

    let input = String::from("1 2 =");
    interp.parse(input);
    interp.exec().unwrap();
    assert_eq!(interp.stack.size(), 1);
    assert_eq!(interp.stack.pop().unwrap(), 0);
}

#[test]
fn interp_test_gt() {
    let mut interp = Interp::new();

    let input = String::from("1 2 >");
    interp.parse(input);
    interp.exec().unwrap();
    assert_eq!(interp.stack.size(), 1);
    assert_eq!(interp.stack.pop().unwrap(), 0);

    let input = String::from("2 1 >");
    interp.parse(input);
    interp.exec().unwrap();
    assert_eq!(interp.stack.size(), 1);
    assert_eq!(interp.stack.pop().unwrap(), -1);
}

#[test]
fn interp_test_lt() {
    let mut interp = Interp::new();

    let input = String::from("2 1 <");
    interp.parse(input);
    interp.exec().unwrap();
    assert_eq!(interp.stack.size(), 1);
    assert_eq!(interp.stack.pop().unwrap(), 0);

    let input = String::from("1 2 <");
    interp.parse(input);
    interp.exec().unwrap();
    assert_eq!(interp.stack.size(), 1);
    assert_eq!(interp.stack.pop().unwrap(), -1);
}
