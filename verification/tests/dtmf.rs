use scte_35::dtmf::{
    DTMFDescriptor, DTMFDescriptorError, DTMF_DESCRIPTOR_TAG, DTMF_HEADER_LENGTH, DTMF_MAX_CHARS,
};

const SAMPLE: [u8; 11] = [0x01, 0x09, 0x43, 0x55, 0x45, 0x49, 0x05, 0x7F, 0x31, 0x32, 0x33];

fn descriptor(preroll: u8, chars: &str) -> DTMFDescriptor {
    DTMFDescriptor { json_type: 1, preroll, dtmf_chars: chars.to_string() }
}

#[test]
fn dtmf_constants() {
    assert_eq!(DTMF_DESCRIPTOR_TAG, 0x01);
    assert_eq!(DTMF_HEADER_LENGTH, 8);
    assert_eq!(DTMF_MAX_CHARS, 7);
}

#[test]
fn dtmf_default_is_empty() {
    let d = DTMFDescriptor::default();
    assert_eq!(d.json_type, 1);
    assert_eq!(d.preroll, 0);
    assert_eq!(d.dtmf_chars, "");
}

#[test]
fn dtmf_decodes_sample_and_encodes_it_again() {
    let d = DTMFDescriptor::decode(&SAMPLE).unwrap();
    assert_eq!(d, descriptor(5, "123"));
    assert_eq!(d.encode(), Ok(SAMPLE.to_vec()));
}

#[test]
fn dtmf_encodes_default() {
    assert_eq!(
        DTMFDescriptor::default().encode(),
        Ok(vec![0x01, 0x06, 0x43, 0x55, 0x45, 0x49, 0x00, 0x1F])
    );
}

#[test]
fn dtmf_encodes_count_in_top_three_bits() {
    let expected_packed = [0x1Fu8, 0x3F, 0x5F, 0x7F, 0x9F, 0xBF, 0xDF, 0xFF];
    let tones = "0123456";
    for count in 0..=7usize {
        let bytes = descriptor(9, &tones[..count]).encode().unwrap();
        assert_eq!(bytes.len(), 8 + count);
        assert_eq!(bytes[0], 0x01);
        assert_eq!(bytes[1] as usize, 6 + count);
        assert_eq!(&bytes[2..6], b"CUEI");
        assert_eq!(bytes[6], 9);
        assert_eq!(bytes[7], expected_packed[count]);
        assert_eq!(&bytes[8..], tones[..count].as_bytes());
    }
}

#[test]
fn dtmf_encodes_seven_symbols() {
    assert_eq!(
        descriptor(0xFF, "*#09AD5").encode(),
        Ok(vec![
            0x01, 0x0D, 0x43, 0x55, 0x45, 0x49, 0xFF, 0xFF, 0x2A, 0x23, 0x30, 0x39, 0x41, 0x44,
            0x35
        ])
    );
}

#[test]
fn dtmf_refuses_more_than_seven_characters() {
    assert_eq!(
        descriptor(0, "12345678").encode(),
        Err(DTMFDescriptorError::CountOverflow(8))
    );
    assert_eq!(
        descriptor(0, &"1".repeat(256)).encode(),
        Err(DTMFDescriptorError::CountOverflow(256))
    );
    assert_eq!(
        descriptor(0, &"1".repeat(264)).encode(),
        Err(DTMFDescriptorError::CountOverflow(264))
    );
}

#[test]
fn dtmf_round_trips_valid_descriptors() {
    for preroll in [0u8, 1, 5, 127, 128, 255] {
        for chars in ["", "1", "*#", "123", "ABCD", "0123456", "\u{0}\u{7f}"] {
            let d = descriptor(preroll, chars);
            let bytes = d.encode().unwrap();
            assert_eq!(DTMFDescriptor::decode(&bytes), Ok(d));
        }
    }
}

#[test]
fn dtmf_decode_fails_on_every_truncation() {
    let whole = descriptor(3, "0123456").encode().unwrap();
    assert_eq!(whole.len(), 15);
    for len in 0..whole.len() {
        assert_eq!(
            DTMFDescriptor::decode(&whole[..len]),
            Err(DTMFDescriptorError::TruncatedInput)
        );
    }
    assert!(DTMFDescriptor::decode(&whole).is_ok());
}

#[test]
fn dtmf_decode_fails_when_count_declares_more_than_there_is() {
    let mut bytes = SAMPLE.to_vec();
    bytes[7] = 0x9F;
    assert_eq!(DTMFDescriptor::decode(&bytes), Err(DTMFDescriptorError::TruncatedInput));
    bytes.push(0x34);
    assert_eq!(DTMFDescriptor::decode(&bytes), Ok(descriptor(5, "1234")));
}

#[test]
fn dtmf_decode_of_empty_input_fails() {
    assert_eq!(DTMFDescriptor::decode(&[]), Err(DTMFDescriptorError::TruncatedInput));
}

#[test]
fn dtmf_decode_passes_over_tag_length_and_identifier() {
    let bytes = [0xAA, 0xBB, 0x00, 0x11, 0x22, 0x33, 0x07, 0x5F, 0x2A, 0x23];
    assert_eq!(DTMFDescriptor::decode(&bytes), Ok(descriptor(7, "*#")));
}

#[test]
fn dtmf_decode_passes_over_reserved_bits() {
    for reserved in 0..32u8 {
        let mut bytes = SAMPLE;
        bytes[7] = 0x60 | reserved;
        assert_eq!(DTMFDescriptor::decode(&bytes), Ok(descriptor(5, "123")));
    }
}

#[test]
fn dtmf_decode_stops_after_the_declared_characters() {
    let mut bytes = SAMPLE.to_vec();
    bytes.extend_from_slice(&[0x34, 0x35, 0x36]);
    assert_eq!(DTMFDescriptor::decode(&bytes), Ok(descriptor(5, "123")));
    bytes[7] = 0x00;
    assert_eq!(DTMFDescriptor::decode(&bytes), Ok(descriptor(5, "")));
}

#[test]
fn dtmf_decode_reads_each_byte_as_one_character() {
    let bytes = [0x01, 0x08, 0x43, 0x55, 0x45, 0x49, 0x00, 0x5F, 0xE9, 0xFF];
    let d = DTMFDescriptor::decode(&bytes).unwrap();
    assert_eq!(d.dtmf_chars, "\u{e9}\u{ff}");
    assert_eq!(d.dtmf_chars.chars().count(), 2);
}

#[test]
fn dtmf_encode_counts_and_writes_the_bytes_of_the_string() {
    let d = descriptor(0, "\u{e9}");
    assert_eq!(d.length(), 8);
    assert_eq!(
        d.encode(),
        Ok(vec![0x01, 0x08, 0x43, 0x55, 0x45, 0x49, 0x00, 0x5F, 0xC3, 0xA9])
    );
    assert_eq!(
        descriptor(0, "\u{e9}\u{e9}\u{e9}\u{e9}").encode(),
        Err(DTMFDescriptorError::CountOverflow(8))
    );
}

#[test]
fn dtmf_length_counts_what_follows_the_length_byte() {
    assert_eq!(DTMFDescriptor::default().length(), 6);
    assert_eq!(descriptor(0, "123").length(), 9);
    assert_eq!(descriptor(0, "0123456").length(), 13);
    assert_eq!(descriptor(0, "0123456789").length(), 16);
    let d = descriptor(1, "42#");
    let bytes = d.encode().unwrap();
    assert_eq!(bytes[1] as usize, d.length());
    assert_eq!(bytes.len(), 2 + d.length());
}

#[test]
fn dtmf_encode_does_not_look_at_json_type() {
    let mut d = descriptor(5, "123");
    d.json_type = 77;
    assert_eq!(d.encode(), Ok(SAMPLE.to_vec()));
    assert_eq!(DTMFDescriptor::decode(&SAMPLE).unwrap().json_type, 1);
}
