use vda_decoder::error::{DecodeError, ErrorKind};
use vda_decoder::field::{ignore_n, n_alphanums, read, trailing, Class};
use vda_decoder::number::{counted_number, to_number};

const NO_LIMIT: u64 = u64::MAX;

#[test]
fn counted_number_1() {
    let input = "12 34";
    let rslt = counted_number(input.as_bytes(), 0, 4, NO_LIMIT);

    let err = rslt.unwrap_err();
    assert_eq!(err, DecodeError { kind: ErrorKind::NumericFormatError, offset: 0 });
}

#[test]
fn counted_number_2() {
    let input = "1234";
    let rslt = counted_number(input.as_bytes(), 0, 4, NO_LIMIT).unwrap();

    assert_eq!(1234, rslt.0);
    assert_eq!(4, rslt.1);
}

#[test]
fn counted_number_3() {
    let input = "1234";
    let rslt = counted_number(input.as_bytes(), 0, 5, NO_LIMIT);

    let err = rslt.unwrap_err();
    assert_eq!(
        err,
        DecodeError { kind: ErrorKind::FieldWidthMismatch { width: 5, available: 4 }, offset: 0 }
    );
}

#[test]
fn counted_number_keeps_leading_zeros_as_value() {
    assert_eq!(counted_number(b"001234", 0, 6, NO_LIMIT), Ok((1234, 6)));
    assert_eq!(counted_number(b"007", 0, 3, NO_LIMIT), Ok((7, 3)));
    assert_eq!(counted_number(b"000", 0, 3, NO_LIMIT), Ok((0, 3)));
}

#[test]
fn counted_number_accepts_padding_on_the_right_only() {
    assert_eq!(counted_number(b"1234  ", 0, 6, NO_LIMIT), Ok((1234, 6)));
    assert_eq!(
        counted_number(b"  1234", 0, 6, NO_LIMIT),
        Err(DecodeError { kind: ErrorKind::NumericFormatError, offset: 0 })
    );
    assert_eq!(
        counted_number(b"12 34", 0, 5, NO_LIMIT),
        Err(DecodeError { kind: ErrorKind::NumericFormatError, offset: 0 })
    );
}

#[test]
fn counted_number_rejects_a_blank_span() {
    assert_eq!(
        counted_number(b"xx      ", 2, 6, NO_LIMIT),
        Err(DecodeError { kind: ErrorKind::NumericFormatError, offset: 2 })
    );
}

#[test]
fn counted_number_reads_at_the_cursor() {
    assert_eq!(counted_number(b"ab0042cd", 2, 4, NO_LIMIT), Ok((42, 6)));
}

#[test]
fn counted_number_reports_the_offending_column() {
    assert_eq!(
        counted_number(b"12a4", 0, 4, NO_LIMIT),
        Err(DecodeError { kind: ErrorKind::UnexpectedCharacter { character: b'a' }, offset: 2 })
    );
    assert_eq!(
        counted_number(b"+123", 0, 4, NO_LIMIT),
        Err(DecodeError { kind: ErrorKind::UnexpectedCharacter { character: b'+' }, offset: 0 })
    );
}

#[test]
fn counted_number_checks_the_width_before_the_characters() {
    assert_eq!(
        counted_number(b"1a", 0, 3, NO_LIMIT),
        Err(DecodeError { kind: ErrorKind::FieldWidthMismatch { width: 3, available: 2 }, offset: 0 })
    );
}

#[test]
fn counted_number_rejects_a_value_above_the_limit() {
    assert_eq!(counted_number(b"4294967295", 0, 10, 0xFFFF_FFFF), Ok((4294967295, 10)));
    assert_eq!(
        counted_number(b"4294967296", 0, 10, 0xFFFF_FFFF),
        Err(DecodeError { kind: ErrorKind::NumericFormatError, offset: 0 })
    );
    assert_eq!(counted_number(b"100", 0, 3, 99).unwrap_err().kind, ErrorKind::NumericFormatError);
    assert_eq!(counted_number(b"099", 0, 3, 99), Ok((99, 3)));
}

#[test]
fn to_number_decodes_digits() {
    assert_eq!(to_number(b"0", NO_LIMIT), Some(0));
    assert_eq!(to_number(b"1234", NO_LIMIT), Some(1234));
    assert_eq!(to_number(b"001234", NO_LIMIT), Some(1234));
    assert_eq!(to_number(b"12   ", NO_LIMIT), Some(12));
    assert_eq!(to_number(b"000000042", NO_LIMIT), Some(42));
}

#[test]
fn to_number_rejects_what_is_no_number() {
    assert_eq!(to_number(b"", NO_LIMIT), None);
    assert_eq!(to_number(b"    ", NO_LIMIT), None);
    assert_eq!(to_number(b"  1234", NO_LIMIT), None);
    assert_eq!(to_number(b"12 34", NO_LIMIT), None);
    assert_eq!(to_number(b"12a", NO_LIMIT), None);
    assert_eq!(to_number(b"-12", NO_LIMIT), None);
    assert_eq!(to_number(b"+12", NO_LIMIT), None);
    assert_eq!(to_number(b"12\t", NO_LIMIT), None);
    assert_eq!(to_number(b"12\n", NO_LIMIT), None);
}

#[test]
fn to_number_stops_at_the_limit() {
    assert_eq!(to_number(b"18446744073709551615", NO_LIMIT), Some(u64::MAX));
    assert_eq!(to_number(b"18446744073709551616", NO_LIMIT), None);
    assert_eq!(to_number(b"99999999999999999999", NO_LIMIT), None);
    assert_eq!(to_number(b"000018446744073709551615  ", NO_LIMIT), Some(u64::MAX));
    assert_eq!(to_number(b"10", 9), None);
    assert_eq!(to_number(b"9", 9), Some(9));
    assert_eq!(to_number(b"0", 0), Some(0));
    assert_eq!(to_number(b"1", 0), None);
}

#[test]
fn class_membership() {
    assert!(Class::Alphanumeric.accepts(b'A'));
    assert!(Class::Alphanumeric.accepts(b' '));
    assert!(Class::Alphanumeric.accepts(0x7F));
    assert!(!Class::Alphanumeric.accepts(0x80));
    assert!(Class::NumericOrSpace.accepts(b'0'));
    assert!(Class::NumericOrSpace.accepts(b'9'));
    assert!(Class::NumericOrSpace.accepts(b' '));
    assert!(!Class::NumericOrSpace.accepts(b'/'));
    assert!(!Class::NumericOrSpace.accepts(b':'));
    assert!(Class::Any.accepts(0xFF));
    assert!(Class::Blank.accepts(b' '));
    assert!(!Class::Blank.accepts(b'0'));
}

#[test]
fn read_gives_the_cursor_behind_the_span() {
    assert_eq!(read(b"abcdef", 1, 3, Class::Alphanumeric), Ok(4));
    assert_eq!(read(b"abcdef", 0, 6, Class::Alphanumeric), Ok(6));
    assert_eq!(read(b"abcdef", 6, 0, Class::Alphanumeric), Ok(6));
    assert_eq!(read(b"abcdef", 3, 0, Class::Blank), Ok(3));
}

#[test]
fn read_fails_where_the_line_is_too_short() {
    assert_eq!(
        read(b"abcdef", 4, 3, Class::Any),
        Err(DecodeError { kind: ErrorKind::FieldWidthMismatch { width: 3, available: 2 }, offset: 4 })
    );
    assert_eq!(
        read(b"abcdef", 9, 1, Class::Any),
        Err(DecodeError { kind: ErrorKind::FieldWidthMismatch { width: 1, available: 0 }, offset: 9 })
    );
    assert_eq!(
        read(b"abcdef", 9, 0, Class::Any),
        Err(DecodeError { kind: ErrorKind::FieldWidthMismatch { width: 0, available: 0 }, offset: 9 })
    );
    assert_eq!(
        read(b"", 0, usize::MAX, Class::Any),
        Err(DecodeError {
            kind: ErrorKind::FieldWidthMismatch { width: usize::MAX, available: 0 },
            offset: 0
        })
    );
}

#[test]
fn read_fails_at_the_first_character_outside_the_class() {
    assert_eq!(
        read(b"12x4y6", 0, 6, Class::NumericOrSpace),
        Err(DecodeError { kind: ErrorKind::UnexpectedCharacter { character: b'x' }, offset: 2 })
    );
    assert_eq!(
        read(b"  x ", 0, 4, Class::Blank),
        Err(DecodeError { kind: ErrorKind::UnexpectedCharacter { character: b'x' }, offset: 2 })
    );
    assert_eq!(read(b"12x4y6", 0, 2, Class::NumericOrSpace), Ok(2));
}

#[test]
fn n_alphanums_copies_the_span() {
    assert_eq!(n_alphanums(b"51101KUNDE0001", 5, 9), Ok((b"KUNDE0001".to_vec(), 14)));
    assert_eq!(n_alphanums(b"a b", 0, 3), Ok((b"a b".to_vec(), 3)));
    assert_eq!(n_alphanums(b"abc", 1, 0), Ok((Vec::new(), 1)));
}

#[test]
fn n_alphanums_rejects_what_is_not_ascii() {
    let line = "ab\u{e9}d".as_bytes();
    assert_eq!(
        n_alphanums(line, 0, 4),
        Err(DecodeError { kind: ErrorKind::UnexpectedCharacter { character: 0xC3 }, offset: 2 })
    );
    assert_eq!(
        n_alphanums(b"abc", 0, 4),
        Err(DecodeError { kind: ErrorKind::FieldWidthMismatch { width: 4, available: 3 }, offset: 0 })
    );
}

#[test]
fn ignore_n_takes_any_content() {
    let line = [0xFFu8, 0x00, b'\n', b'x'];
    assert_eq!(ignore_n(&line, 0, 4), Ok(4));
    assert_eq!(
        ignore_n(&line, 1, 4),
        Err(DecodeError { kind: ErrorKind::FieldWidthMismatch { width: 4, available: 3 }, offset: 1 })
    );
}

#[test]
fn trailing_wants_the_line_to_end_behind_it() {
    assert_eq!(trailing(b"abc  ", 3, 2, Class::Blank), Ok(()));
    assert_eq!(trailing(b"abcde", 3, 2, Class::Any), Ok(()));
    assert_eq!(trailing(b"abc", 3, 0, Class::Blank), Ok(()));
    assert_eq!(
        trailing(b"abc ", 3, 2, Class::Any),
        Err(DecodeError { kind: ErrorKind::FieldWidthMismatch { width: 2, available: 1 }, offset: 3 })
    );
    assert_eq!(
        trailing(b"abc   ", 3, 2, Class::Any),
        Err(DecodeError { kind: ErrorKind::FieldWidthMismatch { width: 2, available: 3 }, offset: 3 })
    );
    assert_eq!(
        trailing(b"abc x", 3, 2, Class::Blank),
        Err(DecodeError { kind: ErrorKind::UnexpectedCharacter { character: b'x' }, offset: 4 })
    );
}

#[test]
fn shifted_moves_the_offset_only() {
    let e = DecodeError { kind: ErrorKind::NumericFormatError, offset: 8 };
    assert_eq!(e.shifted(129), DecodeError { kind: ErrorKind::NumericFormatError, offset: 137 });
    assert!(!e.is_header_mismatch());
}
