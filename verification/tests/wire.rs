use can_recorder::wire::{decode, encode, CanFrame, WIRE_FRAME_LEN};

#[test]
fn record_is_little_endian() {
    let frame = CanFrame {
        timestamp: 0x0102_0304_0506_0708,
        id: 0x1A2B_3C4D,
        data: [1, 2, 3, 4, 5, 6, 7, 8],
    };
    let bytes = encode(&frame);
    assert_eq!(
        bytes,
        [8, 7, 6, 5, 4, 3, 2, 1, 0x4D, 0x3C, 0x2B, 0x1A, 0, 0, 0, 0, 1, 2, 3, 4, 5, 6, 7, 8]
    );
    assert_eq!(decode(&bytes), Some(frame));
}

#[test]
fn record_has_24_bytes() {
    assert_eq!(WIRE_FRAME_LEN, 24);
    let frame = CanFrame { timestamp: 0, id: 0, data: [0; 8] };
    assert_eq!(encode(&frame), [0u8; 24]);
}

#[test]
fn round_trip_keeps_every_field() {
    let frames = [
        CanFrame { timestamp: 0, id: 0, data: [0; 8] },
        CanFrame { timestamp: u64::MAX, id: u32::MAX, data: [0xFF; 8] },
        CanFrame { timestamp: 1234.5678f64.to_bits(), id: 0x7FF, data: [9, 8, 7, 6, 5, 4, 3, 2] },
        CanFrame { timestamp: f64::NAN.to_bits(), id: 0x1FFF_FFFF, data: [0, 0, 0, 0, 0, 0, 0, 1] },
    ];
    for frame in frames {
        assert_eq!(decode(&encode(&frame)), Some(frame));
    }
}

#[test]
fn round_trip_of_a_short_payload() {
    let frame = CanFrame::from_payload(2.5f64.to_bits(), 0x321, &[0xAA, 0xBB, 0xCC]);
    assert_eq!(frame.data, [0xAA, 0xBB, 0xCC, 0, 0, 0, 0, 0]);
    let back = decode(&encode(&frame)).unwrap();
    assert_eq!(f64::from_bits(back.timestamp), 2.5);
    assert_eq!(back.id, 0x321);
    assert_eq!(back.data, [0xAA, 0xBB, 0xCC, 0, 0, 0, 0, 0]);
}

#[test]
fn round_trip_of_a_long_payload() {
    let frame = CanFrame::from_payload(7, 1, &[1, 2, 3, 4, 5, 6, 7, 8, 9, 10, 11, 12]);
    assert_eq!(frame.data, [1, 2, 3, 4, 5, 6, 7, 8]);
    assert_eq!(decode(&encode(&frame)), Some(frame));
}

#[test]
fn frame_without_payload_holds_zeros() {
    let frame = CanFrame::from_payload(7, 1, &[]);
    assert_eq!(frame.data, [0; 8]);
}

#[test]
fn reserved_word_is_ignored_on_read() {
    let frame = CanFrame { timestamp: 42, id: 7, data: [1, 0, 0, 0, 0, 0, 0, 0] };
    let mut bytes = encode(&frame);
    bytes[12] = 0xDE;
    bytes[13] = 0xAD;
    bytes[14] = 0xBE;
    bytes[15] = 0xEF;
    assert_eq!(decode(&bytes), Some(frame));
}

#[test]
fn wrong_length_is_no_record() {
    assert_eq!(decode(&[0u8; 23]), None);
    assert_eq!(decode(&[0u8; 25]), None);
    assert_eq!(decode(&[]), None);
}

#[test]
fn layout_is_that_of_the_fields_in_memory_on_a_little_endian_host() {
    let frame = CanFrame { timestamp: 1.25f64.to_bits(), id: 0x18FF_50E5, data: [1, 2, 3, 4, 5, 6, 7, 8] };
    let mut expected = Vec::new();
    expected.extend_from_slice(bytemuck::bytes_of(&f64::from_bits(frame.timestamp)));
    expected.extend_from_slice(bytemuck::bytes_of(&frame.id));
    expected.extend_from_slice(bytemuck::bytes_of(&0u32));
    expected.extend_from_slice(bytemuck::bytes_of(&frame.data));
    if u16::from_ne_bytes([1, 0]) == 1 {
        assert_eq!(encode(&frame).to_vec(), expected);
    }
}
