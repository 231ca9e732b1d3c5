use fpm_gateway::ascii::{decimal_number, leading_digits};
use fpm_gateway::search::find_first;

#[test]
fn find_first_gives_the_first_place() {
    assert_eq!(find_first(b"a\r\nb\r\nc", b"\r\n"), Some(1));
    assert_eq!(find_first(b"\r\nb", b"\r\n"), Some(0));
    assert_eq!(find_first(b"ab\r\n", b"\r\n"), Some(2));
    assert_eq!(find_first(b"aaab", b"aab"), Some(1));
    assert_eq!(find_first(b"\r\r\n\r\n", b"\r\n\r\n"), Some(1));
}

#[test]
fn find_first_of_what_does_not_occur_is_none() {
    assert_eq!(find_first(b"abc", b"\r\n"), None);
    assert_eq!(find_first(b"", b"\r\n"), None);
    assert_eq!(find_first(b"\r", b"\r\n"), None);
    assert_eq!(find_first(b"\n\r", b"\r\n"), None);
    assert_eq!(find_first(b"ab", b"abc"), None);
}

#[test]
fn empty_pattern_stands_at_the_start() {
    assert_eq!(find_first(b"abc", b""), Some(0));
    assert_eq!(find_first(b"", b""), Some(0));
}

#[test]
fn leading_digits_are_counted() {
    assert_eq!(leading_digits(b"404 Not Found"), 3);
    assert_eq!(leading_digits(b"abc"), 0);
    assert_eq!(leading_digits(b""), 0);
    assert_eq!(leading_digits(b"12345"), 5);
    assert_eq!(leading_digits(b"/0"), 0);
    assert_eq!(leading_digits(b"9:"), 1);
    assert_eq!(leading_digits(b"0/9"), 1);
}

#[test]
fn decimal_number_reads_digits() {
    assert_eq!(decimal_number(b"0"), Some(0));
    assert_eq!(decimal_number(b"404"), Some(404));
    assert_eq!(decimal_number(b"000404"), Some(404));
    assert_eq!(decimal_number(b"65536"), Some(65536));
    assert_eq!(decimal_number(usize::MAX.to_string().as_bytes()), Some(usize::MAX));
}

#[test]
fn decimal_number_refuses_what_is_no_number() {
    assert_eq!(decimal_number(b""), None);
    assert_eq!(decimal_number(b"4o4"), None);
    assert_eq!(decimal_number(b"+4"), None);
    assert_eq!(decimal_number(b"4 "), None);
    assert_eq!(decimal_number(b"/"), None);
    assert_eq!(decimal_number(b":"), None);
    let mut beyond = usize::MAX.to_string();
    beyond.push('0');
    assert_eq!(decimal_number(beyond.as_bytes()), None);
    assert_eq!(decimal_number(b"99999999999999999999999999999999999999999"), None);
}
