use hlwinter::store;

#[test]
fn written_id_is_read_back() {
    for id in [0u64, 1, 9, 10, 42, 4294967295, 4294967296, u64::MAX - 1, u64::MAX] {
        let content = store::write(id);
        assert_eq!(store::read(Some(&content)), Some(id));
    }
}

#[test]
fn record_is_the_decimal_text_alone() {
    assert_eq!(store::write(42), b"42".to_vec());
    assert_eq!(store::write(0), b"0".to_vec());
    assert_eq!(store::write(u64::MAX), b"18446744073709551615".to_vec());
}

#[test]
fn shorter_record_leaves_nothing_behind() {
    let long = store::write(123456789);
    let short = store::write(7);
    assert_eq!(long.len(), 9);
    assert_eq!(short.len(), 1);
    assert_eq!(store::read(Some(&short)), Some(7));
}

#[test]
fn missing_file_reads_as_nothing() {
    assert_eq!(store::read(None), None);
}

#[test]
fn empty_content_reads_as_nothing() {
    assert_eq!(store::read(Some(b"")), None);
    assert_eq!(store::read(Some(b"\n")), None);
    assert_eq!(store::read(Some(b"\n42")), None);
    assert_eq!(store::read(Some(b"\r\n42")), None);
}

#[test]
fn non_numeric_text_reads_as_nothing() {
    assert_eq!(store::read(Some(b"hello")), None);
    assert_eq!(store::read(Some(b"42a")), None);
    assert_eq!(store::read(Some(b" 42")), None);
    assert_eq!(store::read(Some(b"42 ")), None);
    assert_eq!(store::read(Some(b"-1")), None);
    assert_eq!(store::read(Some(b"0x2a")), None);
    assert_eq!(store::read(Some(b"4_2")), None);
    assert_eq!(store::read(Some(b"+")), None);
    assert_eq!(store::read(Some(b"++1")), None);
    assert_eq!(store::read(Some(b"\xff\xfe")), None);
    assert_eq!(store::read(Some("４２".as_bytes())), None);
}

#[test]
fn only_the_first_line_counts() {
    assert_eq!(store::read(Some(b"42\n")), Some(42));
    assert_eq!(store::read(Some(b"42\n43\n")), Some(42));
    assert_eq!(store::read(Some(b"42\nrubbish \xff")), Some(42));
    assert_eq!(store::read(Some(b"42\r\n")), Some(42));
    assert_eq!(store::read(Some(b"42\r")), None);
    assert_eq!(store::read(Some(b"42\r\r\n")), None);
}

#[test]
fn numerals_as_the_parser_takes_them() {
    assert_eq!(store::read(Some(b"+42")), Some(42));
    assert_eq!(store::read(Some(b"0042")), Some(42));
    assert_eq!(store::read(Some(b"000000000000000000000000000000007")), Some(7));
    assert_eq!(store::read(Some(b"18446744073709551615")), Some(u64::MAX));
    assert_eq!(store::read(Some(b"18446744073709551616")), None);
    assert_eq!(store::read(Some(b"99999999999999999999999")), None);
}
