use mgz::binary32::Binary32;
use mgz::de::{count_le_u32, count_players, separator};
use mgz::error::{fail, DecodeError, ErrorKind};
use mgz::primitives::{
    blob8, byte, cond_blob8, cond_flag, cond_le_u32, cstring, de_string, flag, le_binary32, le_i32,
    le_u16, le_u32, tag, take,
};

fn err<T>(kind: ErrorKind, remaining: usize) -> Result<T, DecodeError> {
    Err(DecodeError { kind, remaining, inflated: false })
}

#[test]
fn flag_reads_zero_and_one_only() {
    assert_eq!(flag(&[0, 9]), Ok((&[9u8][..], false)));
    assert_eq!(flag(&[1]), Ok((&[][..], true)));
    for value in 2..=255u8 {
        assert_eq!(flag(&[value, 0, 1]), err(ErrorKind::InvalidFlagValue(value), 3));
    }
    assert_eq!(flag(&[]), err(ErrorKind::Truncated, 0));
}

#[test]
fn cstring_ends_at_the_first_zero() {
    assert_eq!(cstring(b"VER 9.4\0rest"), Ok((&b"rest"[..], "VER 9.4")));
    assert_eq!(cstring(b"\0"), Ok((&b""[..], "")));
    assert_eq!(cstring(b"a\0b\0"), Ok((&b"b\0"[..], "a")));
    assert_eq!(cstring("gr\u{fc}n \u{2603}\0".as_bytes()), Ok((&b""[..], "gr\u{fc}n \u{2603}")));
    assert_eq!(cstring(b"no end"), err(ErrorKind::Truncated, 6));
    assert_eq!(cstring(b""), err(ErrorKind::Truncated, 0));
    assert_eq!(cstring(&[0xff, 0xfe, 0]), err(ErrorKind::InvalidEncoding, 3));
    assert_eq!(cstring(&[0xc3, 0]), err(ErrorKind::InvalidEncoding, 2));
    assert_eq!(cstring(&[0xff, 0xfe]), err(ErrorKind::Truncated, 2));
}

#[test]
fn de_string_needs_marker_length_and_text() {
    assert_eq!(de_string(&[0x60, 0x0A, 3, 0, b'a', b'b', b'c', 7]), Ok((&[7u8][..], "abc")));
    assert_eq!(de_string(&[0x60, 0x0A, 0, 0]), Ok((&[][..], "")));
    let mut long = vec![0x60, 0x0A, 0x2c, 0x01];
    long.extend(std::iter::repeat(b'x').take(300));
    long.push(1);
    let (rest, text) = de_string(&long).unwrap();
    assert_eq!(rest, &[1]);
    assert_eq!(text.len(), 300);
    assert_eq!(de_string(&[0x60, 0x0A, 2, 0, 0xc3, 0xbc]), Ok((&[][..], "\u{fc}")));

    assert_eq!(de_string(&[]), err(ErrorKind::Truncated, 0));
    assert_eq!(de_string(&[0x60]), err(ErrorKind::Truncated, 1));
    assert_eq!(de_string(&[0x61]), err(ErrorKind::Truncated, 1));
    assert_eq!(de_string(&[0x60, 0x0B, 0, 0]), err(ErrorKind::BadMarker, 4));
    assert_eq!(de_string(&[0x0A, 0x60, 0, 0]), err(ErrorKind::BadMarker, 4));
    assert_eq!(de_string(&[0x61, 0x0A]), err(ErrorKind::BadMarker, 2));
    assert_eq!(de_string(&[0x60, 0x0A]), err(ErrorKind::Truncated, 0));
    assert_eq!(de_string(&[0x60, 0x0A, 1]), err(ErrorKind::Truncated, 1));
    assert_eq!(de_string(&[0x60, 0x0A, 3, 0, b'a', b'b']), err(ErrorKind::Truncated, 2));
    assert_eq!(de_string(&[0x60, 0x0A, 1, 0, 0x80]), err(ErrorKind::InvalidEncoding, 1));
    assert_eq!(
        de_string(&[0x60, 0x0A, 3, 0, 0xed, 0xa0, 0x80]),
        err(ErrorKind::InvalidEncoding, 3)
    );
}

#[test]
fn numbers_are_little_endian() {
    assert_eq!(byte(&[0xab, 1]), Ok((&[1u8][..], 0xab)));
    assert_eq!(byte(&[]), err(ErrorKind::Truncated, 0));
    assert_eq!(le_u16(&[0x34, 0x12, 9]), Ok((&[9u8][..], 0x1234)));
    assert_eq!(le_u16(&[0xff, 0xff]), Ok((&[][..], 0xffff)));
    assert_eq!(le_u16(&[1]), err(ErrorKind::Truncated, 1));
    assert_eq!(le_u32(&[0x78, 0x56, 0x34, 0x12, 9]), Ok((&[9u8][..], 0x1234_5678)));
    assert_eq!(le_u32(&[0xff; 4]), Ok((&[][..], u32::MAX)));
    assert_eq!(le_u32(&[1, 2, 3]), err(ErrorKind::Truncated, 3));
    assert_eq!(le_i32(&[0xff; 4]), Ok((&[][..], -1)));
    assert_eq!(le_i32(&[0, 0, 0, 0x80]), Ok((&[][..], i32::MIN)));
    assert_eq!(le_i32(&[0xff, 0xff, 0xff, 0x7f]), Ok((&[][..], i32::MAX)));
    assert_eq!(le_i32(&[0x7c, 0xfc, 0xff, 0xff, 5]), Ok((&[5u8][..], -900)));
    assert_eq!(le_i32(&[1, 2, 3]), err(ErrorKind::Truncated, 3));
    let encoded = 62.0f32.to_le_bytes();
    let (rest, number) = le_binary32(&encoded).unwrap();
    assert!(rest.is_empty());
    assert_eq!(f32::from_bits(number.to_bits()), 62.0);
    assert_eq!(le_binary32(&[1, 2, 3]).unwrap_err(), fail(ErrorKind::Truncated, &[1, 2, 3]));
}

#[test]
fn blocks_and_literals() {
    assert_eq!(take(&[1, 2, 3], 2), Ok((&[3u8][..], &[1u8, 2][..])));
    assert_eq!(take(&[1, 2, 3], 0), Ok((&[1u8, 2, 3][..], &[][..])));
    assert_eq!(take(&[1, 2, 3], 3), Ok((&[][..], &[1u8, 2, 3][..])));
    assert_eq!(take(&[1, 2, 3], 4), err(ErrorKind::Truncated, 3));
    assert_eq!(blob8(&[1, 2, 3, 4, 5, 6, 7, 8, 9]), Ok((&[9u8][..], [1, 2, 3, 4, 5, 6, 7, 8])));
    assert_eq!(blob8(&[1, 2, 3, 4, 5, 6, 7]), err(ErrorKind::Truncated, 7));
    assert_eq!(tag(&[1, 2, 3], &[1, 2]), Ok((&[3u8][..], ())));
    assert_eq!(tag(&[1, 2, 3], &[]), Ok((&[1u8, 2, 3][..], ())));
    assert_eq!(tag(&[1, 3, 3], &[1, 2]), err(ErrorKind::BadMarker, 3));
    assert_eq!(tag(&[2, 2, 3], &[1, 2]), err(ErrorKind::BadMarker, 3));
    assert_eq!(tag(&[1], &[1, 2]), err(ErrorKind::Truncated, 1));
    assert_eq!(tag(&[9], &[1, 2]), err(ErrorKind::Truncated, 1));
    assert_eq!(separator(&[0xA3, 0x5F, 0x02, 0x00, 1]), Ok((&[1u8][..], ())));
    assert_eq!(separator(&[0xA3, 0x5F, 0x02, 0x01, 1]), err(ErrorKind::BadMarker, 5));
    assert_eq!(separator(&[0xA3, 0x5F, 0x02]), err(ErrorKind::Truncated, 3));
}

#[test]
fn absent_fields_consume_nothing() {
    assert_eq!(cond_le_u32(&[1, 0, 0, 0, 9], true), Ok((&[9u8][..], Some(1))));
    assert_eq!(cond_le_u32(&[1, 0, 0, 0, 9], false), Ok((&[1u8, 0, 0, 0, 9][..], None)));
    assert_eq!(cond_le_u32(&[1], true), err(ErrorKind::Truncated, 1));
    assert_eq!(cond_le_u32(&[1], false), Ok((&[1u8][..], None)));
    assert_eq!(cond_flag(&[1, 9], true), Ok((&[9u8][..], Some(true))));
    assert_eq!(cond_flag(&[5, 9], true), err(ErrorKind::InvalidFlagValue(5), 2));
    assert_eq!(cond_flag(&[5, 9], false), Ok((&[5u8, 9][..], None)));
    assert_eq!(cond_flag(&[], true), err(ErrorKind::Truncated, 0));
    assert_eq!(cond_blob8(&[0; 8], true), Ok((&[][..], Some([0; 8]))));
    assert_eq!(cond_blob8(&[0; 7], true), err(ErrorKind::Truncated, 7));
    assert_eq!(cond_blob8(&[0; 7], false), Ok((&[0u8; 7][..], None)));
}

#[test]
fn lists_stop_at_the_first_failure() {
    assert_eq!(count_le_u32(&[1, 0, 0, 0, 2, 0, 0, 0, 9], 2), Ok((&[9u8][..], vec![1, 2])));
    assert_eq!(count_le_u32(&[9], 0), Ok((&[9u8][..], vec![])));
    assert_eq!(count_le_u32(&[1, 0, 0, 0, 2, 0, 0], 2), err(ErrorKind::Truncated, 3));
    assert_eq!(count_le_u32(&[1, 0, 0, 0], u32::MAX), err(ErrorKind::Truncated, 0));
    let version = Binary32::from_bits(62.0f32.to_bits());
    let (rest, players) = count_players(&[5], version, 0).unwrap();
    assert_eq!(rest, &[5]);
    assert!(players.is_empty());
    assert_eq!(count_players(&[5], version, 1).unwrap_err(), fail(ErrorKind::Truncated, &[5]));
    assert_eq!(count_players(&[], version, u32::MAX).unwrap_err(), fail(ErrorKind::Truncated, &[]));
}

#[test]
fn errors_describe_themselves_and_their_place() {
    let kinds = [
        ErrorKind::Truncated,
        ErrorKind::BadMarker,
        ErrorKind::InvalidEncoding,
        ErrorKind::InvalidFlagValue(7),
        ErrorKind::DecompressionError,
    ];
    for (i, a) in kinds.iter().enumerate() {
        let first = fail(*a, &[1, 2, 3]);
        assert_eq!(first.kind, *a);
        assert_eq!(first.remaining, 3);
        assert!(!first.inflated);
        assert_eq!(first.offset(10), Some(7));
        assert_eq!(first.offset(3), Some(0));
        assert_eq!(first.offset(2), None);
        let inner = first.within_header();
        assert_eq!(inner, DecodeError { kind: *a, remaining: 3, inflated: true });
        assert_eq!(inner.describe(), first.describe());
        for (j, b) in kinds.iter().enumerate() {
            assert_eq!(first.describe() == fail(*b, &[]).describe(), i == j);
        }
        assert!(!first.describe().is_empty());
    }
}
