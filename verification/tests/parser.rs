use errfmt::run;
use errfmt::Parser;

#[test]
fn test_parser_from_empty_errfmt() {
    let actual = Parser::new(String::new(), String::new()).unwrap().shape.0.len();
    let expected = 0;
    assert_eq!(expected, actual)
}

#[test]
fn test_parser_should_have_an_entry_if_it_matches() {
    let sut = Parser::new(String::from("Error: %f:%l:%c: %k: %m"), String::new()).unwrap();
    let entries = sut
        .parse(String::from("Error: /tmp/foo:42:42: warning: syntax error"))
        .unwrap();
    assert_eq!(1, entries.len())
}

#[test]
fn test_single_line_mode() {
    let input = String::from("/tmp/myfile: error on line 7: invalid syntax\n");
    let sut = Parser::new(String::from("%f: %k on line %l: %m"), String::new()).unwrap();
    let entries = sut.parse(input).unwrap();
    assert_eq!(
        "/tmp/myfile:7:1: error: invalid syntax",
        &entries[0].render()
    )
}

#[test]
fn test_multiple_entries_with_single_line_mode() {
    let input = vec![
        String::from("/tmp/myfile: error on line 7: invalid syntax"),
        String::from("\n"),
        String::from("/tmp/anotherfile: error on line 7: invalid syntax"),
        String::from("\n"),
    ]
    .join("");
    let sut = Parser::new(String::from("%f: %k on line %l: %m%."), String::new()).unwrap();
    let entries = sut.parse(input).unwrap();
    assert_eq!(
        "/tmp/anotherfile:7:1: error: invalid syntax",
        &entries[1].render()
    )
}

#[test]
fn test_multi_line_mode() {
    let input = vec![
        String::from("/tmp/myfile"),
        String::from("\n"),
        String::from("13:37"),
        String::from("\n"),
    ]
    .join("");
    let sut = Parser::new(String::from("%f%.%l:%c%."), String::new()).unwrap();
    let entries = sut.parse(input).unwrap();
    assert_eq!("/tmp/myfile:13:37: error: ", &entries[0].render())
}

#[test]
fn test_multiples_entries_with_multi_line_mode() {
    let input = vec![
        String::from("/tmp/myfile"),
        String::from("\n"),
        String::from("13:37"),
        String::from("\n"),
        String::from("/tmp/anotherfile"),
        String::from("\n"),
        String::from("13:37"),
        String::from("\n"),
    ]
    .join("");
    let sut = Parser::new(String::from("%f%.%l:%c%."), String::new()).unwrap();
    let entries = sut.parse(input).unwrap();
    assert_eq!("/tmp/anotherfile:13:37: error: ", &entries[1].render())
}

#[test]
fn test_filename_must_override_extracted_value() {
    let sut = Parser::new(String::from("%f"), String::from("/etc/shadow")).unwrap();
    let entries = sut.parse(String::from("/tmp/myfile")).unwrap();
    assert_eq!("/etc/shadow:1:1: error: ", &entries[0].render())
}

#[test]
fn test_wildcard_before_placeholders_must_consume_any_single_line_message() {
    let sut = Parser::new(String::from("%k%*: %m"), String::new()).unwrap();
    let entries = sut
        .parse(String::from("error[zzz]:  syntax error"))
        .unwrap();
    assert_eq!(":1:1: error:  syntax error", &entries[0].render())
}

#[test]
fn test_wildcard_before_placeholders_must_not_be_greedy() {
    let sut = Parser::new(String::from("%k%*: %m"), String::new()).unwrap();
    let entries = sut.parse(String::from("error: syntax error: foo")).unwrap();
    assert_eq!("syntax error: foo", entries[0].message)
}

#[test]
fn test_empty_template_produces_no_records() {
    let sut = Parser::new(String::new(), String::new()).unwrap();
    let entries = sut.parse(String::from("some input\nwith lines")).unwrap();
    assert_eq!(0, entries.len())
}

#[test]
fn test_run_passthrough_example() {
    let messages = run(
        String::from("/tmp/foo:42:42: warning: syntax error"),
        String::from("%f:%l:%c: %k: %m"),
        String::new(),
    )
    .unwrap();
    assert_eq!(
        vec![String::from("/tmp/foo:42:42: warning: syntax error")],
        messages
    )
}

#[test]
fn test_run_php_example() {
    let messages = run(
        String::from(
            "PHP Parse error:  syntax error, unexpected end of file, expecting ',' or ';' in /tmp/test.php on line 4",
        ),
        String::from("%k: %m in %f on line %l"),
        String::new(),
    )
    .unwrap();
    assert_eq!(
        vec![String::from(
            "/tmp/test.php:4:1: error:  syntax error, unexpected end of file, expecting ',' or ';'",
        )],
        messages
    )
}

#[test]
fn test_run_file_override_wins_over_extracted_path() {
    let messages = run(
        String::from("/tmp/other.c:3:4: warning: dubious"),
        String::from("%f:%l:%c: %k: %m"),
        String::from("/etc/shadow"),
    )
    .unwrap();
    assert_eq!(
        vec![String::from("/etc/shadow:3:4: warning: dubious")],
        messages
    )
}

#[test]
fn test_run_no_match_yields_no_output() {
    let messages = run(
        String::from("nothing that looks like a diagnostic"),
        String::from("%f:%l:%c: %k: %m"),
        String::new(),
    )
    .unwrap();
    assert_eq!(Vec::<String>::new(), messages)
}

#[test]
fn test_run_unrecognized_kind_word_is_an_error() {
    let err = run(
        String::from("info: something happened"),
        String::from("%k: %m"),
        String::new(),
    )
    .unwrap_err();
    assert_eq!(String::from("unexpected kind: info"), err)
}

#[test]
fn test_run_line_number_too_large_is_an_error() {
    let err = run(
        String::from("/tmp/a:99999999999: boom"),
        String::from("%f:%l: %m"),
        String::new(),
    )
    .unwrap_err();
    assert_eq!(
        String::from("captured text is not a line or column number"),
        err
    )
}

#[test]
fn test_run_zero_line_or_column_is_an_error() {
    // line and column are positive; a captured zero is a local
    // extraction failure, like a non-numeral
    let err = run(
        String::from("/tmp/a:0: boom"),
        String::from("%f:%l: %m"),
        String::new(),
    )
    .unwrap_err();
    assert_eq!(
        String::from("captured text is not a line or column number"),
        err
    )
}

#[test]
fn test_run_oversized_template_is_rejected() {
    let huge = "x".repeat(500_000);
    let result = run(
        String::from("anything"),
        huge,
        String::new(),
    );
    assert!(result.is_err())
}

#[test]
fn test_run_multi_line_block_associates_later_line() {
    let input = String::from("/tmp/one.rs\n1:2\n/tmp/two.rs\n3:4\n");
    let messages = run(input, String::from("%f%.%l:%c%."), String::new()).unwrap();
    assert_eq!(
        vec![
            String::from("/tmp/one.rs:1:2: error: "),
            String::from("/tmp/two.rs:3:4: error: "),
        ],
        messages
    )
}
