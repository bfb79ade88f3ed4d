use scte_35::identifier::{validate_identifier_bytes, CUE_IDENTIFIER};
use scte_35::word::{push_be_u32, read_be_u32};

#[test]
fn identifier_is_cuei() {
    assert_eq!(CUE_IDENTIFIER, 0x43554549);
    assert_eq!(validate_identifier_bytes(b"CUEI"), Ok(()));
    assert_eq!(validate_identifier_bytes(&[0x43, 0x55, 0x45, 0x49]), Ok(()));
}

#[test]
fn identifier_is_read_from_the_front() {
    assert_eq!(validate_identifier_bytes(b"CUEI and more"), Ok(()));
    assert_eq!(validate_identifier_bytes(b" CUEI"), Err("Invalid SCTE-35 identifier"));
}

#[test]
fn identifier_needs_four_bytes() {
    for short in [&b""[..], &b"C"[..], &b"CU"[..], &b"CUE"[..]] {
        assert_eq!(
            validate_identifier_bytes(short),
            Err("Buffer too short to contain SCTE-35 identifier")
        );
    }
}

#[test]
fn identifier_must_match() {
    assert_eq!(validate_identifier_bytes(b"CUEJ"), Err("Invalid SCTE-35 identifier"));
    assert_eq!(validate_identifier_bytes(b"cuei"), Err("Invalid SCTE-35 identifier"));
    assert_eq!(validate_identifier_bytes(b"IEUC"), Err("Invalid SCTE-35 identifier"));
    assert_eq!(validate_identifier_bytes(&[0, 0, 0, 0]), Err("Invalid SCTE-35 identifier"));
}

#[test]
fn word_is_read_big_endian() {
    let bytes = [0xFF, 0x01, 0x02, 0x03, 0x04, 0x80, 0x00, 0x00, 0x01];
    assert_eq!(read_be_u32(&bytes, 1), 0x0102_0304);
    assert_eq!(read_be_u32(&bytes, 0), 0xFF01_0203);
    assert_eq!(read_be_u32(&bytes, 5), 0x8000_0001);
    assert_eq!(read_be_u32(&[0xFF; 4], 0), u32::MAX);
}

#[test]
fn word_is_written_big_endian() {
    let mut out = vec![0xAA];
    push_be_u32(&mut out, 0x0102_0304);
    push_be_u32(&mut out, u32::MAX);
    push_be_u32(&mut out, 0);
    assert_eq!(out, vec![0xAA, 1, 2, 3, 4, 0xFF, 0xFF, 0xFF, 0xFF, 0, 0, 0, 0]);
}

#[test]
fn word_round_trips() {
    for value in [0u32, 1, 0xFF, 0x100, 0xFFFF, 0x1_0000, 0x00FF_FFFF, 0x0100_0000, u32::MAX] {
        let mut out = Vec::new();
        push_be_u32(&mut out, value);
        assert_eq!(out, value.to_be_bytes().to_vec());
        assert_eq!(read_be_u32(&out, 0), value);
    }
}
