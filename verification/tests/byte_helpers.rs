use sudo_test::bytes::bytes_eq;
use sudo_test::bytes::contains_slice;
use sudo_test::bytes::count_lines_containing;
use sudo_test::bytes::find_byte;
use sudo_test::bytes::find_duplicate;
use sudo_test::bytes::lines_of;
use sudo_test::bytes::parse_u64;
use sudo_test::bytes::trim_trailing_nl;

#[test]
fn equality_is_byte_for_byte() {
    assert!(bytes_eq(b"abc", b"abc"));
    assert!(!bytes_eq(b"abc", b"abd"));
    assert!(!bytes_eq(b"abc", b"ab"));
    assert!(bytes_eq(b"", b""));
}

#[test]
fn substring_search_finds_inner_text() {
    assert!(contains_slice(b"invalid configuration: x", b"configuration"));
    assert!(contains_slice(b"abc", b""));
    assert!(contains_slice(b"abc", b"abc"));
    assert!(!contains_slice(b"abc", b"abcd"));
    assert!(!contains_slice(b"usage: sudo", b"Usage"));
    assert!(contains_slice(b"aaab", b"aab"));
}

#[test]
fn lines_split_like_a_text_tool() {
    let lines = lines_of(b"a\nbb\n");
    assert_eq!(lines.len(), 2);
    assert_eq!(lines[0], b"a".to_vec());
    assert_eq!(lines[1], b"bb".to_vec());

    assert_eq!(lines_of(b"").len(), 0);
    assert_eq!(lines_of(b"\n"), vec![b"".to_vec()]);
    assert_eq!(lines_of(b"a"), vec![b"a".to_vec()]);
    assert_eq!(lines_of(b"a\n\nb"), vec![b"a".to_vec(), b"".to_vec(), b"b".to_vec()]);
}

#[test]
fn counting_matching_lines() {
    let text = b"Password: \nwrong\nPassword: \nsorry\n";
    assert_eq!(count_lines_containing(text, b"Password:"), 2);
    assert_eq!(count_lines_containing(text, b"sorry"), 1);
    assert_eq!(count_lines_containing(text, b"nothing"), 0);
    assert_eq!(count_lines_containing(b"", b"x"), 0);
}

#[test]
fn decimal_parse_accepts_digits_only() {
    assert_eq!(parse_u64(b"0"), Some(0));
    assert_eq!(parse_u64(b"1250"), Some(1250));
    assert_eq!(parse_u64(b"18446744073709551615"), Some(u64::MAX));
    assert_eq!(parse_u64(b"18446744073709551616"), None);
    assert_eq!(parse_u64(b""), None);
    assert_eq!(parse_u64(b"12a"), None);
    assert_eq!(parse_u64(b"-1"), None);
    assert_eq!(parse_u64(b" 1"), None);
}

#[test]
fn trailing_newline_trim_removes_one() {
    assert_eq!(trim_trailing_nl(b"root\n"), b"root".to_vec());
    assert_eq!(trim_trailing_nl(b"root"), b"root".to_vec());
    assert_eq!(trim_trailing_nl(b"root\n\n"), b"root\n".to_vec());
    assert_eq!(trim_trailing_nl(b""), b"".to_vec());
}

#[test]
fn byte_search_reports_first_hit_or_length() {
    assert_eq!(find_byte(b"a:b", b':'), 1);
    assert_eq!(find_byte(b"ab", b':'), 2);
    assert_eq!(find_byte(b":ab:", b':'), 0);
}

#[test]
fn duplicate_search_reports_a_repeated_entry() {
    let distinct = vec![b"a".to_vec(), b"b".to_vec()];
    assert_eq!(find_duplicate(&distinct), None);
    let repeated = vec![b"a".to_vec(), b"b".to_vec(), b"a".to_vec()];
    assert_eq!(find_duplicate(&repeated), Some(b"a".to_vec()));
}
