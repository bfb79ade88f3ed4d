use scte_35::avial::{
    AvailDescriptor, AvailDescriptorError, AVAIL_DESCRIPTOR_TAG, CUE_IDENTIFIER,
};

const SAMPLE: [u8; 10] = [0x00, 0x08, 0x43, 0x55, 0x45, 0x49, 0x00, 0x00, 0x00, 0x2A];

#[test]
fn avail_constants() {
    assert_eq!(AVAIL_DESCRIPTOR_TAG, 0x00);
    assert_eq!(CUE_IDENTIFIER, 0x4355_4549);
    assert_eq!(CUE_IDENTIFIER.to_be_bytes(), *b"CUEI");
    assert_eq!(AvailDescriptor::DESCRIPTOR_LENGTH, 10);
}

#[test]
fn avail_decodes_sample_and_encodes_it_again() {
    let descriptor = AvailDescriptor::from_bytes(&SAMPLE).unwrap();
    assert_eq!(descriptor, AvailDescriptor { provider_avail_id: 42 });
    assert_eq!(descriptor.to_bytes(), SAMPLE.to_vec());
}

#[test]
fn avail_encodes_id_big_endian() {
    let descriptor = AvailDescriptor { provider_avail_id: 0x0102_0304 };
    assert_eq!(
        descriptor.to_bytes(),
        vec![0x00, 0x08, 0x43, 0x55, 0x45, 0x49, 0x01, 0x02, 0x03, 0x04]
    );
}

#[test]
fn avail_round_trips_values() {
    for id in [0u32, 1, 42, 255, 256, 0x00FF_FF00, 0x8000_0000, u32::MAX] {
        let descriptor = AvailDescriptor { provider_avail_id: id };
        let bytes = descriptor.to_bytes();
        assert_eq!(bytes.len(), 10);
        assert_eq!(AvailDescriptor::from_bytes(&bytes), Ok(descriptor));
    }
}

#[test]
fn avail_round_trips_bytes() {
    for tail in [[0u8, 0, 0, 0], [0xFF, 0xFF, 0xFF, 0xFF], [0xDE, 0xAD, 0xBE, 0xEF]] {
        let mut bytes = vec![0x00, 0x08, 0x43, 0x55, 0x45, 0x49];
        bytes.extend_from_slice(&tail);
        let descriptor = AvailDescriptor::from_bytes(&bytes).unwrap();
        assert_eq!(descriptor.provider_avail_id, u32::from_be_bytes(tail));
        assert_eq!(descriptor.to_bytes(), bytes);
    }
}

#[test]
fn avail_rejects_every_other_length() {
    for len in 0..32usize {
        if len == 10 {
            continue;
        }
        let mut bytes = SAMPLE.to_vec();
        bytes.resize(len, 0);
        assert_eq!(
            AvailDescriptor::from_bytes(&bytes),
            Err(AvailDescriptorError::InvalidLength(len))
        );
    }
}

#[test]
fn avail_rejects_wrong_tag() {
    let mut bytes = SAMPLE;
    bytes[0] = 0x01;
    assert_eq!(AvailDescriptor::from_bytes(&bytes), Err(AvailDescriptorError::InvalidTag(0x01)));
    bytes[0] = 0xFF;
    assert_eq!(AvailDescriptor::from_bytes(&bytes), Err(AvailDescriptorError::InvalidTag(0xFF)));
}

#[test]
fn avail_rejects_wrong_length_field() {
    let mut bytes = SAMPLE;
    bytes[1] = 0x09;
    assert_eq!(
        AvailDescriptor::from_bytes(&bytes),
        Err(AvailDescriptorError::InvalidDescriptorLength(0x09))
    );
    bytes[1] = 0x00;
    assert_eq!(
        AvailDescriptor::from_bytes(&bytes),
        Err(AvailDescriptorError::InvalidDescriptorLength(0x00))
    );
}

#[test]
fn avail_rejects_wrong_identifier() {
    let mut bytes = SAMPLE;
    bytes[5] = 0x48;
    assert_eq!(
        AvailDescriptor::from_bytes(&bytes),
        Err(AvailDescriptorError::InvalidIdentifier(0x4355_4548))
    );
    let mut bytes = SAMPLE;
    bytes[2] = 0xC3;
    assert_eq!(
        AvailDescriptor::from_bytes(&bytes),
        Err(AvailDescriptorError::InvalidIdentifier(0xC355_4549))
    );
}

#[test]
fn avail_reports_the_first_failure_in_wire_order() {
    let all_wrong = [0x07u8, 0x07, 0, 0, 0, 0, 0, 0, 0, 0];
    assert_eq!(
        AvailDescriptor::from_bytes(&all_wrong[..9]),
        Err(AvailDescriptorError::InvalidLength(9))
    );
    assert_eq!(
        AvailDescriptor::from_bytes(&all_wrong),
        Err(AvailDescriptorError::InvalidTag(0x07))
    );
    let tag_right = [0x00u8, 0x07, 0, 0, 0, 0, 0, 0, 0, 0];
    assert_eq!(
        AvailDescriptor::from_bytes(&tag_right),
        Err(AvailDescriptorError::InvalidDescriptorLength(0x07))
    );
    let length_right = [0x00u8, 0x08, 0, 0, 0, 0, 0, 0, 0, 0];
    assert_eq!(
        AvailDescriptor::from_bytes(&length_right),
        Err(AvailDescriptorError::InvalidIdentifier(0))
    );
}

#[test]
fn avail_length_is_eight() {
    assert_eq!(AvailDescriptor { provider_avail_id: 0 }.length(), 8);
    let descriptor = AvailDescriptor { provider_avail_id: u32::MAX };
    assert_eq!(descriptor.length(), descriptor.to_bytes().len() - 2);
    assert_eq!(descriptor.to_bytes()[1] as usize, descriptor.length());
}
