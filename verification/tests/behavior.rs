use forth::error::Error;
use forth::interp::Interp;
use forth::interpreter::Interpreter;
use forth::utils::Utils;

#[test]
fn test_unknown_word_not_found() {
    let mut interpreter = Interpreter::new();

    interpreter.parse("qux".into());
    let result = interpreter.exec();
    assert_eq!(result, Err(Error::NotFound));
}

#[test]
fn test_failed_exec_keeps_stack() {
    let mut interpreter = Interpreter::new();

    interpreter.parse("1 2 qux".into());
    let result = interpreter.exec();
    assert_eq!(result, Err(Error::NotFound));
    assert_eq!(interpreter.stack.size(), 2);
    assert_eq!(interpreter.stack.pop().unwrap(), 2);
    assert_eq!(interpreter.stack.pop().unwrap(), 1);
}

#[test]
fn test_unterminated_definition() {
    let mut interpreter = Interpreter::new();

    interpreter.parse(": foo 1".into());
    let result = interpreter.exec();
    assert_eq!(result, Err(Error::TokenOutOfBounds));
}

#[test]
fn test_definition_missing_name() {
    let mut interpreter = Interpreter::new();

    interpreter.parse(":".into());
    let result = interpreter.exec();
    assert_eq!(result, Err(Error::TokenOutOfBounds));
}

#[test]
fn test_underflow_error_value() {
    let mut interpreter = Interpreter::new();

    interpreter.parse("+".into());
    let result = interpreter.exec();
    assert_eq!(result, Err(Error::StackUnderflow));
}

#[test]
fn test_literal_at_limit() {
    let mut interpreter = Interpreter::new();

    interpreter.parse("9223372036854775807".into());
    interpreter.exec().unwrap();
    assert_eq!(interpreter.stack.pop().unwrap(), i64::MAX);
}

#[test]
fn test_literal_too_large() {
    let mut interpreter = Interpreter::new();

    interpreter.parse("9223372036854775808".into());
    let result = interpreter.exec();
    assert_eq!(result, Err(Error::NotFound));
    assert_eq!(interpreter.stack.size(), 0);
}

#[test]
fn test_wrapping_add() {
    let mut interpreter = Interpreter::new();

    interpreter.parse("9223372036854775807 1 +".into());
    interpreter.exec().unwrap();
    assert_eq!(interpreter.stack.pop().unwrap(), i64::MIN);
}

#[test]
fn test_contents_empty() {
    let mut interpreter = Interpreter::new();

    assert_eq!(interpreter.contents(), " <- Top");
}

#[test]
fn test_contents_rendering() {
    let mut interpreter = Interpreter::new();

    interpreter.parse("10 205 0 -".into());
    interpreter.exec().unwrap();
    assert_eq!(interpreter.contents(), "10 -205 <- Top");
}

#[test]
fn test_contents_idempotent() {
    let mut interpreter = Interpreter::new();

    interpreter.parse("1 2 3".into());
    interpreter.exec().unwrap();
    let first = interpreter.contents();
    let second = interpreter.contents();
    assert_eq!(first, second);
    assert_eq!(first, "1 2 3 <- Top");
}

#[test]
fn test_dot_output() {
    let mut interpreter = Interpreter::new();

    interpreter.parse("42 .".into());
    interpreter.exec().unwrap();
    assert_eq!(interpreter.take_output(), vec!["42 ok"]);
    assert_eq!(interpreter.take_output(), Vec::<String>::new());
}

#[test]
fn test_emit_output() {
    let mut interpreter = Interpreter::new();

    interpreter.parse("65 emit".into());
    interpreter.exec().unwrap();
    assert_eq!(interpreter.take_output(), vec!["A ok"]);
}

#[test]
fn test_emit_fallback_glyph() {
    let mut interpreter = Interpreter::new();

    interpreter.parse("55296 emit".into());
    interpreter.exec().unwrap();
    assert_eq!(interpreter.take_output(), vec!["\u{e800} ok"]);

    interpreter.parse("1 0 - emit".into());
    interpreter.exec().unwrap();
    assert_eq!(interpreter.take_output(), vec!["\u{e800} ok"]);
}

#[test]
fn test_cr_output() {
    let mut interpreter = Interpreter::new();

    interpreter.parse("7 cr".into());
    interpreter.exec().unwrap();
    assert_eq!(interpreter.take_output(), vec![""]);
    assert_eq!(interpreter.stack.size(), 1);
    assert_eq!(interpreter.stack.pop().unwrap(), 7);
}

#[test]
fn test_redefinition_overwrites() {
    let mut interpreter = Interpreter::new();

    interpreter.parse(": foo 1 ; : foo 2 ;".into());
    interpreter.exec().unwrap();
    interpreter.parse("foo".into());
    interpreter.exec().unwrap();
    assert_eq!(interpreter.stack.size(), 1);
    assert_eq!(interpreter.stack.pop().unwrap(), 2);
}

#[test]
fn test_expansion_appends_to_end() {
    let mut interpreter = Interpreter::new();

    interpreter.parse(": foo 1 ;".into());
    interpreter.exec().unwrap();

    // Trailing tokens after a word invocation run before the word's body,
    // because the body is appended to the end of the buffer.
    interpreter.parse("foo 9".into());
    interpreter.exec().unwrap();
    assert_eq!(interpreter.stack.size(), 2);
    assert_eq!(interpreter.stack.pop().unwrap(), 1);
    assert_eq!(interpreter.stack.pop().unwrap(), 9);
}

#[test]
fn test_error_messages() {
    assert_eq!(Error::NotFound.message(), "Command not found.");
    assert_eq!(Error::StackUnderflow.message(), "Stack underflow.");
    assert_eq!(Error::TokenOutOfBounds.message(), "Token out of bounds.");
}

#[test]
fn test_is_num_empty() {
    assert!(Utils::is_num(""));
}

#[test]
fn test_split_collapses_whitespace() {
    assert_eq!(
        Utils::split(String::from("  1 \t 2 \n 3  ")),
        vec!["1", "2", "3"]
    );
    assert_eq!(Utils::split(String::from("   ")), Vec::<String>::new());
}

#[test]
fn test_split_unicode_whitespace() {
    assert_eq!(
        Utils::split(String::from("1\u{a0}2\u{2028}3\u{3000}4")),
        vec!["1", "2", "3", "4"]
    );
    assert_eq!(
        Utils::split(String::from("\u{85}\u{1680}\u{2009}\u{205f}")),
        Vec::<String>::new()
    );
}

#[test]
fn test_exec_after_unicode_whitespace_split() {
    let mut interpreter = Interpreter::new();

    interpreter.parse("1\u{a0}2 +".into()).exec().unwrap();
    assert_eq!(interpreter.stack.size(), 1);
    assert_eq!(interpreter.stack.pop().unwrap(), 3);
}

#[test]
fn test_interp_has_no_words() {
    let mut interp = Interp::new();

    interp.parse(String::from("swap"));
    let result = interp.exec();
    assert_eq!(result, Err(Error::NotFound));
}

#[test]
fn test_interp_contents() {
    let mut interp = Interp::new();

    interp.parse(String::from("3 4"));
    interp.exec().unwrap();
    assert_eq!(interp.contents(), "3 4 <- Top");
}

#[test]
fn test_interp_dot_output() {
    let mut interp = Interp::new();

    interp.parse(String::from("9 ."));
    interp.exec().unwrap();
    assert_eq!(interp.take_output(), vec!["9 ok"]);
}

#[test]
fn test_cursor_api() {
    let mut interpreter = Interpreter::new();

    interpreter.parse("10 foo".into());
    assert!(interpreter.has_next());
    assert_eq!(interpreter.peek_next().unwrap(), "10");
    assert_eq!(interpreter.get_next().unwrap(), "10");
    assert_eq!(interpreter.get_next().unwrap(), "foo");
    assert!(!interpreter.has_next());
    assert_eq!(interpreter.get_next(), Err(Error::TokenOutOfBounds));
    assert_eq!(interpreter.peek_next(), Err(Error::TokenOutOfBounds));

    interpreter.reset();
    assert!(interpreter.has_next());
    assert_eq!(interpreter.get_next().unwrap(), "10");
}

#[test]
fn test_interp_underflow() {
    let mut interp = Interp::new();

    interp.parse(String::from("."));
    let result = interp.exec();
    assert_eq!(result, Err(Error::StackUnderflow));
}

#[test]
fn test_lifo_sequence() {
    let mut interpreter = Interpreter::new();

    interpreter.parse("5 6 7 8".into());
    interpreter.exec().unwrap();
    assert_eq!(interpreter.stack.pop().unwrap(), 8);
    assert_eq!(interpreter.stack.pop().unwrap(), 7);
    assert_eq!(interpreter.stack.pop().unwrap(), 6);
    assert_eq!(interpreter.stack.pop().unwrap(), 5);
}
