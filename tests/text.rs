use nanobot_supervisor::text::{
    contains_bytes, find_bytes, join_with_space, parse_unsigned, push_decimal, split_bytes,
    trim_bytes,
};

#[test]
fn unsigned_parsing_follows_std() {
    assert_eq!(parse_unsigned(b"42", u32::MAX as u64), Some(42));
    assert_eq!(parse_unsigned(b"+42", u32::MAX as u64), Some(42));
    assert_eq!(parse_unsigned(b"", u32::MAX as u64), None);
    assert_eq!(parse_unsigned(b"+", u32::MAX as u64), None);
    assert_eq!(parse_unsigned(b"4294967295", u32::MAX as u64), Some(4294967295));
    assert_eq!(parse_unsigned(b"4294967296", u32::MAX as u64), None);
    assert_eq!(parse_unsigned(b"12a", u32::MAX as u64), None);
    assert_eq!(parse_unsigned(b"18446744073709551615", u64::MAX), Some(u64::MAX));
    assert_eq!(parse_unsigned(b"18446744073709551616", u64::MAX), None);
    assert_eq!(parse_unsigned(b"-1", u64::MAX), None);
    for s in ["0", "7", "65535", "65536", "00012", "+0"] {
        assert_eq!(parse_unsigned(s.as_bytes(), 65535), s.parse::<u16>().ok().map(|v| v as u64));
    }
}

#[test]
fn search_finds_first_occurrence() {
    assert_eq!(find_bytes(b"abcabc", b"bc"), Some(1));
    assert_eq!(find_bytes(b"abc", b""), Some(0));
    assert_eq!(find_bytes(b"ab", b"abc"), None);
    assert!(contains_bytes(b"nanobot gateway", b"gateway"));
    assert!(!contains_bytes(b"nanobot", b"gateway"));
}

#[test]
fn join_and_split() {
    let parts = vec![b"a".to_vec(), Vec::new(), b"c".to_vec()];
    assert_eq!(join_with_space(&parts), b"a  c".to_vec());
    assert_eq!(split_bytes(b"a::c", b':'), vec![b"a".to_vec(), Vec::new(), b"c".to_vec()]);
    assert_eq!(split_bytes(b"", b':'), vec![Vec::<u8>::new()]);
}

#[test]
fn trimming_and_decimals() {
    assert_eq!(trim_bytes(b" \t x y \r\n"), b"x y".to_vec());
    assert_eq!(trim_bytes(b"   "), Vec::<u8>::new());
    let mut s = String::from("n=");
    push_decimal(&mut s, 1234567890);
    assert_eq!(s, "n=1234567890");
}
