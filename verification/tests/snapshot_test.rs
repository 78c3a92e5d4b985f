use errfmt::run;
use errfmt::ESLINT_ERRFMT;
use errfmt::GOLINT_ERRFMT;
use errfmt::PASSTHROUGH_ERRFMT;
use errfmt::PHP_ERRFMT;
use errfmt::RUSTFMT_ERRFMT;
use errfmt::SHELLCHECK_ERRFMT;

fn run_snapshot(input: &str, errfmt: &str, expected: &str) {
    assert_eq!(
        expected.to_string(),
        run(input.to_string(), errfmt.to_string(), String::new())
            .unwrap()
            .join("\n")
    );
}

#[test]
fn snapshot_test_test_passthrough_snapshot() {
    // "passthrough"
    run_snapshot(
        "/tmp/foo:42:7: warning: something looks off",
        PASSTHROUGH_ERRFMT,
        "/tmp/foo:42:7: warning: something looks off",
    );
}

#[test]
fn test_php_error() {
    // "php-error"
    run_snapshot(
        "PHP Parse error:  syntax error, unexpected '}' in /tmp/index.php on line 21",
        PHP_ERRFMT,
        "/tmp/index.php:21:1: error:  syntax error, unexpected '}'",
    );
}

#[test]
fn test_php_warning() {
    // "php-warning"
    run_snapshot(
        "PHP Warning:  Undefined variable $foo in /tmp/view.php on line 7",
        PHP_ERRFMT,
        "/tmp/view.php:7:1: warning:  Undefined variable $foo",
    );
}

#[test]
fn test_rustfmt_padding() {
    // "rustfmt-padding"
    run_snapshot(
        "error: this file contains an unclosed delimiter\n   --> /tmp/main.rs:10:2",
        RUSTFMT_ERRFMT,
        "/tmp/main.rs:10:2: error: this file contains an unclosed delimiter",
    );
}

#[test]
fn test_rustfmt_no_padding() {
    // "rustfmt-no-padding"
    run_snapshot(
        "error: expected item\n--> /tmp/lib.rs:1:1",
        RUSTFMT_ERRFMT,
        "/tmp/lib.rs:1:1: error: expected item",
    );
}

#[test]
fn test_rustfmt_backquotes() {
    // "rustfmt-backquotes"
    run_snapshot(
        "error: expected `;`\n --> /tmp/mod.rs:3:14",
        RUSTFMT_ERRFMT,
        "/tmp/mod.rs:3:14: error: expected `;`",
    );
}

#[test]
fn test_rustfmt_error_with_code() {
    // "rustfmt-error-with-code"
    run_snapshot(
        "error[E0425]: cannot find value `x` in this scope\n  --> /tmp/main.rs:2:13",
        RUSTFMT_ERRFMT,
        "/tmp/main.rs:2:13: error: cannot find value `x` in this scope",
    );
}

#[test]
fn test_eslint_error() {
    // "eslint-error"
    run_snapshot(
        "\n/tmp/app.js\n  10:5  error  Unexpected console statement",
        ESLINT_ERRFMT,
        "/tmp/app.js:10:5: error: Unexpected console statement",
    );
}

#[test]
fn test_eslint_warning() {
    // "eslint-warning"
    run_snapshot(
        "\n/tmp/app.js\n  3:1  warning  Missing semicolon",
        ESLINT_ERRFMT,
        "/tmp/app.js:3:1: warning: Missing semicolon",
    );
}

#[test]
fn test_golint_error() {
    // "golint-error"
    run_snapshot(
        "/tmp/main.go:14:2: exported function Foo should have comment or be unexported",
        GOLINT_ERRFMT,
        "/tmp/main.go:14:2: error: exported function Foo should have comment or be unexported",
    );
}

#[test]
fn test_shellcheck_error() {
    // "shellcheck-error"
    run_snapshot(
        "/tmp/deploy.sh:17:8: error: Couldn't parse this function.",
        SHELLCHECK_ERRFMT,
        "/tmp/deploy.sh:17:8: error: Couldn't parse this function.",
    );
}

#[test]
fn test_shellcheck_note() {
    // "shellcheck-note"
    run_snapshot(
        "/tmp/deploy.sh:3:1: note: Use ./*glob* or -- *glob* so names with dashes won't become options.",
        SHELLCHECK_ERRFMT,
        "/tmp/deploy.sh:3:1: warning: Use ./*glob* or -- *glob* so names with dashes won't become options.",
    );
}
