use forth::utils::Utils;

#[test]
fn test_is_num() {
    assert!(Utils::is_num("1234"));
    assert_eq!(Utils::is_num("123J4"), false);
}

#[test]
fn test_split() {
    assert_eq!(
        Utils::split(String::from(": foo 1 ;")),
        vec![":", "foo", "1", ";"]
    );
}
