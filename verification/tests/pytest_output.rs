use wolfcode_lessons::pytest::{parse_pytest_summary, pytest_totals};

#[test]
fn plain_summary() {
    assert_eq!(parse_pytest_summary("..\n2 passed in 0.05s\n"), (2, 0));
}

#[test]
fn summary_between_rules() {
    assert_eq!(parse_pytest_summary("x\n===== 2 passed in 0.05s =====\n"), (2, 0));
    assert_eq!(parse_pytest_summary("==== 1 failed, 3 passed in 0.12s ====\n"), (3, 1));
}

#[test]
fn errors_count_as_failures() {
    assert_eq!(parse_pytest_summary("1 failed, 2 passed, 1 error in 0.1s"), (2, 2));
    assert_eq!(parse_pytest_summary("2 errors in 0.1s"), (0, 2));
    assert_eq!(parse_pytest_summary("1 error, 2 errors, in 0.1s"), (0, 3));
}

#[test]
fn last_line_that_is_not_blank_counts() {
    assert_eq!(parse_pytest_summary("9 passed\n1 failed, 4 passed in 1s\n\n   \n"), (4, 1));
    assert_eq!(parse_pytest_summary("9 passed\n1 failed, 4 passed in 1s\n\n   \nbye\n"), (0, 0));
    assert_eq!(parse_pytest_summary("x\n  2 passed in 1s \r\n\r\n \n"), (2, 0));
    assert_eq!(parse_pytest_summary("3 passed in 1s\nFAILED a - error\n"), (0, 0));
    assert_eq!(parse_pytest_summary("1 passed in 0.01s\n\nno tests ran in 0.02s\n"), (0, 0));
}

#[test]
fn nothing_is_counted_without_a_summary() {
    assert_eq!(parse_pytest_summary(""), (0, 0));
    assert_eq!(parse_pytest_summary("no tests ran in 0.01s\n"), (0, 0));
    assert_eq!(parse_pytest_summary("all passed"), (0, 0));
    assert_eq!(parse_pytest_summary("passed 3"), (0, 0));
}

#[test]
fn numbers_that_do_not_fit_are_no_numbers() {
    assert_eq!(parse_pytest_summary("4294967296 passed, 1 failed"), (0, 1));
    assert_eq!(parse_pytest_summary("-1 passed +2 failed"), (0, 2));
}

#[test]
fn totals_may_exceed_a_count() {
    assert_eq!(pytest_totals("4294967295 passed 4294967295 passed, 5 failed"), (8589934590, 5));
}
