use mini_executor::parse::input_result;
use mini_executor::parse::parse_line;

#[test]
fn plain_number() {
    assert_eq!(parse_line(&b"7".to_vec()), 7);
    assert_eq!(parse_line(&b"42".to_vec()), 42);
    assert_eq!(parse_line(&b"0".to_vec()), 0);
}

#[test]
fn trims_whitespace() {
    assert_eq!(parse_line(&b"7\n".to_vec()), 7);
    assert_eq!(parse_line(&b"  42 \t\r\n".to_vec()), 42);
    assert_eq!(parse_line(&b"\n\n".to_vec()), 0);
}

#[test]
fn signs() {
    assert_eq!(parse_line(&b"-13\n".to_vec()), -13);
    assert_eq!(parse_line(&b"+13\n".to_vec()), 13);
    assert_eq!(parse_line(&b"-\n".to_vec()), 0);
    assert_eq!(parse_line(&b"+\n".to_vec()), 0);
}

#[test]
fn malformed_lines_are_zero() {
    assert_eq!(parse_line(&b"".to_vec()), 0);
    assert_eq!(parse_line(&b"abc\n".to_vec()), 0);
    assert_eq!(parse_line(&b"12x\n".to_vec()), 0);
    assert_eq!(parse_line(&b"1 2\n".to_vec()), 0);
    assert_eq!(parse_line(&b"--5\n".to_vec()), 0);
}

#[test]
fn range_edges() {
    assert_eq!(parse_line(&b"2147483647\n".to_vec()), 2147483647);
    assert_eq!(parse_line(&b"-2147483648\n".to_vec()), -2147483648);
    assert_eq!(parse_line(&b"2147483648\n".to_vec()), 0);
    assert_eq!(parse_line(&b"-2147483649\n".to_vec()), 0);
    assert_eq!(parse_line(&b"99999999999999999999\n".to_vec()), 0);
    assert_eq!(parse_line(&b"007\n".to_vec()), 7);
}

#[test]
fn input_result_adds_ten() {
    assert_eq!(input_result(&b"7\n".to_vec()), 17);
    assert_eq!(input_result(&b"-10\n".to_vec()), 0);
    assert_eq!(input_result(&b"oops\n".to_vec()), 10);
    assert_eq!(input_result(&b"2147483647\n".to_vec()), 2147483657);
}
