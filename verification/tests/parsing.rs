use rget::naming::resolve_output_name;
use rget::resource::parse_content_length;

#[test]
fn parses_plain_lengths() {
    assert_eq!(parse_content_length(b"0"), Some(0));
    assert_eq!(parse_content_length(b"1000"), Some(1000));
    assert_eq!(parse_content_length(b"007"), Some(7));
    assert_eq!(parse_content_length(b"18446744073709551615"), Some(u64::MAX));
}

#[test]
fn rejects_non_digits() {
    assert_eq!(parse_content_length(b""), None);
    assert_eq!(parse_content_length(b"12a"), None);
    assert_eq!(parse_content_length(b"a12"), None);
    assert_eq!(parse_content_length(b"+5"), None);
    assert_eq!(parse_content_length(b"-5"), None);
    assert_eq!(parse_content_length(b" 5"), None);
    assert_eq!(parse_content_length(b"1 000"), None);
}

#[test]
fn rejects_overflow() {
    assert_eq!(parse_content_length(b"18446744073709551616"), None);
    assert_eq!(parse_content_length(b"99999999999999999999999"), None);
}

#[test]
fn takes_last_path_segment() {
    assert_eq!(resolve_output_name(b"/files/archive.tar.gz"), b"archive.tar.gz".to_vec());
    assert_eq!(resolve_output_name(b"/a/b/c"), b"c".to_vec());
    assert_eq!(resolve_output_name(b"name"), b"name".to_vec());
}

#[test]
fn empty_last_segment_uses_default_name() {
    assert_eq!(resolve_output_name(b"/files/"), b"downloaded_file".to_vec());
    assert_eq!(resolve_output_name(b"/"), b"downloaded_file".to_vec());
    assert_eq!(resolve_output_name(b""), b"downloaded_file".to_vec());
}
