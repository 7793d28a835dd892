use relay_pagination::cursor::{decode_cursor, encode_cursor};
use relay_pagination::error::Error;

#[test]
fn encode_is_32_hex_digits() {
    assert_eq!(encode_cursor(0), "00000000000000000000000000000000");
    assert_eq!(encode_cursor(1), "00000000000000000000000000000001");
    assert_eq!(encode_cursor(255), "000000000000000000000000000000ff");
    assert_eq!(encode_cursor(u128::MAX), "ffffffffffffffffffffffffffffffff");
    assert_eq!(
        encode_cursor(0x0123_4567_89ab_cdef_0123_4567_89ab_cdef),
        "0123456789abcdef0123456789abcdef"
    );
}

#[test]
fn round_trip_returns_the_identifier() {
    for id in [0u128, 1, 2, 9, 10, 15, 16, 42, 255, 256, 1 << 64, u128::MAX - 1, u128::MAX] {
        let cursor = encode_cursor(id);
        assert_eq!(decode_cursor(&cursor), Ok(id));
    }
}

#[test]
fn decode_rejects_malformed_strings() {
    // Wrong length.
    assert_eq!(decode_cursor(""), Err(Error::InvalidCursor));
    assert_eq!(decode_cursor("0"), Err(Error::InvalidCursor));
    assert_eq!(
        decode_cursor("0000000000000000000000000000000"),
        Err(Error::InvalidCursor)
    );
    assert_eq!(
        decode_cursor("000000000000000000000000000000000"),
        Err(Error::InvalidCursor)
    );
    // Right length, bad characters.
    assert_eq!(
        decode_cursor("gggggggggggggggggggggggggggggggg"),
        Err(Error::InvalidCursor)
    );
    assert_eq!(
        decode_cursor("0000000000000000000000000000000Z"),
        Err(Error::InvalidCursor)
    );
    // Upper-case hexadecimal is not part of the encoding.
    assert_eq!(
        decode_cursor("000000000000000000000000000000FF"),
        Err(Error::InvalidCursor)
    );
}

#[test]
fn decode_never_returns_a_default_for_bad_input() {
    let bad = "not-a-cursor";
    match decode_cursor(bad) {
        Err(Error::InvalidCursor) => {}
        other => panic!("expected InvalidCursor, got {:?}", other),
    }
}
