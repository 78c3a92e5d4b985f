use errfmt::run;
use errfmt::PASSTHROUGH_ERRFMT;
use errfmt::PHP_ERRFMT;

fn check_snapshot(input: &str, errfmt: &str, expected: &str) {
    assert_eq!(
        expected.to_string(),
        run(input.to_string(), errfmt.to_string(), String::new())
            .unwrap()
            .join("\n")
    );
}

#[test]
fn lib_test_passthrough_snapshot() {
    // the "passthrough" template hands a well-formed record through as is
    check_snapshot(
        "/tmp/foo.c:12:3: warning: unused variable 'x'",
        PASSTHROUGH_ERRFMT,
        "/tmp/foo.c:12:3: warning: unused variable 'x'",
    );
}

#[test]
fn test_php_snapshot() {
    // the "php" template re-orders the fields of a php syntax check line
    check_snapshot(
        "PHP Parse error:  syntax error, unexpected end of file, expecting ',' or ';' in /tmp/test.php on line 4",
        PHP_ERRFMT,
        "/tmp/test.php:4:1: error:  syntax error, unexpected end of file, expecting ',' or ';'",
    );
}
