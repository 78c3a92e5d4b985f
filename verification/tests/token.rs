use errfmt::token::Token;

fn token_matches(token: Token, value: &str) -> bool {
    let r = regex::Regex::new(&token.fragment()).unwrap();
    r.is_match(value)
}

#[test]
fn test_standard_filename_pattern_match() {
    assert!(token_matches(Token::File, r"/file/with/extension.foo"))
}

#[test]
fn test_filename_with_space_pattern_match() {
    assert!(token_matches(
        Token::File,
        r"/file/with/space\ in\ name.foo"
    ))
}

#[test]
fn test_filename_mismatch() {
    assert!(!token_matches(Token::File, "\0"))
}

#[test]
fn test_line_number_pattern_match() {
    assert!(token_matches(Token::Line, r"42"))
}

#[test]
fn test_column_number_pattern_match() {
    assert!(token_matches(Token::Column, r"42"))
}

#[test]
fn test_line_number_pattern_mismatch() {
    assert!(!token_matches(Token::Line, r"foo"))
}

#[test]
fn test_column_number_pattern_mismatch() {
    assert!(!token_matches(Token::Column, r"foo"))
}

#[test]
fn test_kind_pattern_match() {
    assert!(token_matches(Token::Kind, r"anyWord"))
}

#[test]
fn test_kind_pattern_mismatch() {
    assert!(!token_matches(Token::Kind, r"[notG00d]"))
}

#[test]
fn test_whitespace_pattern_match() {
    assert!(token_matches(Token::Whitespace, "	 \n"))
}

#[test]
fn test_whitespace_pattern_mismatch() {
    assert!(!token_matches(Token::Whitespace, "abcd"))
}

#[test]
fn test_message_pattern_match() {
    assert!(token_matches(
        Token::Message,
        r"This! is? an error message <core>"
    ))
}

#[test]
fn test_message_pattern_mismatch() {
    assert!(token_matches(
        Token::Message,
        r"Messages cannot be\nmulti-line..."
    ))
}

#[test]
fn test_wildcard_pattern_match() {
    assert!(token_matches(Token::Wildcard, r"E00kdjksh1an"))
}

#[test]
fn test_wildcard_pattern_mismatch() {
    assert!(token_matches(Token::Wildcard, "hello\nworld"))
}

#[test]
fn test_literal_pattern_match() {
    assert!(token_matches(
        Token::Literal(String::from("foo bar")),
        r"foo bar"
    ))
}

#[test]
fn test_literal_pattern_mismatch() {
    assert!(!token_matches(
        Token::Literal(String::from("foo baz")),
        r"foo bar"
    ))
}

#[test]
fn test_literal_must_not_be_a_regex() {
    let tests = vec![
        vec![r".", r"a"],
        vec![r"\s", r"	"],
        vec![r"a+", r"a"],
        vec![r"a?", r"a"],
        vec![r"(a)", r"a"],
        vec![r"a|b", r"a"],
        vec![r"[a]", r"a"],
        vec![r"a{1}", r"a"],
        vec![r"^a", r"a"],
        vec![r"a$", r"a"],
    ];
    for test in tests {
        assert!(!token_matches(
            Token::Literal(String::from(test[0])),
            test[1]
        ));
    }
}

#[test]
fn test_literal_must_work_with_metacharacters() {
    let tests = vec![
        vec![r".", r"."],
        vec![r"(a)", r"(a)"],
        vec![r"a|b", r"a|b"],
        vec![r"[a]", r"[a]"],
    ];
    for test in tests {
        assert!(token_matches(
            Token::Literal(String::from(test[0])),
            test[1]
        ));
    }
}

#[test]
fn test_from_dedupes_percent_signs() {
    if let Token::Literal(actual) = Token::from("%%") {
        assert_eq!(String::from("%"), actual)
    } else {
        panic!()
    }
}

#[test]
fn test_from_maps_each_placeholder() {
    assert!(matches!(Token::from("%f"), Token::File));
    assert!(matches!(Token::from("%l"), Token::Line));
    assert!(matches!(Token::from("%c"), Token::Column));
    assert!(matches!(Token::from("%k"), Token::Kind));
    assert!(matches!(Token::from("%m"), Token::Message));
    assert!(matches!(Token::from("%."), Token::Whitespace));
    assert!(matches!(Token::from("%*"), Token::Wildcard));
    assert!(matches!(Token::from("%z"), Token::Literal(_)));
}
