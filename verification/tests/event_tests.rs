use keylogger::event::{
    is_key_event, is_key_press, is_key_release, is_shift, read_input_event, DecodeError,
    InputEvent, EVENT_SIZE, EV_KEY, KEY_AUTOREPEAT, KEY_LEFTSHIFT, KEY_PRESS, KEY_RELEASE,
    KEY_RIGHTSHIFT,
};
use keylogger::wire::{read_le, signed_32, signed_64, unsigned_32, unsigned_64, write_le};

fn record(tv_sec: i64, tv_usec: i64, type_: u16, code: u16, value: i32) -> Vec<u8> {
    let mut bytes = Vec::new();
    bytes.extend_from_slice(&tv_sec.to_le_bytes());
    bytes.extend_from_slice(&tv_usec.to_le_bytes());
    bytes.extend_from_slice(&type_.to_le_bytes());
    bytes.extend_from_slice(&code.to_le_bytes());
    bytes.extend_from_slice(&value.to_le_bytes());
    bytes
}

#[test]
fn record_is_24_bytes() {
    assert_eq!(EVENT_SIZE, 24);
    assert_eq!(record(0, 0, 0, 0, 0).len(), 24);
}

#[test]
fn decode_reads_fields_at_fixed_offsets() {
    let bytes: Vec<u8> = (1..=24).collect();
    let event = read_input_event(&bytes).unwrap();
    assert_eq!(event.tv_sec, 0x0807_0605_0403_0201);
    assert_eq!(event.tv_usec, 0x100f_0e0d_0c0b_0a09);
    assert_eq!(event.type_, 0x1211);
    assert_eq!(event.code, 0x1413);
    assert_eq!(event.value, 0x1817_1615);
}

#[test]
fn decode_key_press_record() {
    let bytes = [
        0x39, 0x30, 0, 0, 0, 0, 0, 0, 0x40, 0xe2, 0x01, 0, 0, 0, 0, 0, 1, 0, 30, 0, 1, 0, 0, 0,
    ];
    let event = read_input_event(&bytes).unwrap();
    assert_eq!(
        event,
        InputEvent { tv_sec: 12345, tv_usec: 123456, type_: 1, code: 30, value: 1 }
    );
}

#[test]
fn decode_negative_fields() {
    let bytes = [0xffu8; 24];
    let event = read_input_event(&bytes).unwrap();
    assert_eq!(event.tv_sec, -1);
    assert_eq!(event.tv_usec, -1);
    assert_eq!(event.type_, 0xffff);
    assert_eq!(event.code, 0xffff);
    assert_eq!(event.value, -1);
}

#[test]
fn decode_extreme_fields() {
    let bytes = record(i64::MIN, i64::MAX, u16::MAX, 0, i32::MIN);
    let event = read_input_event(&bytes).unwrap();
    assert_eq!(
        event,
        InputEvent { tv_sec: i64::MIN, tv_usec: i64::MAX, type_: u16::MAX, code: 0, value: i32::MIN }
    );
    let bytes = record(i64::MAX, i64::MIN, 0, u16::MAX, i32::MAX);
    let event = read_input_event(&bytes).unwrap();
    assert_eq!(
        event,
        InputEvent { tv_sec: i64::MAX, tv_usec: i64::MIN, type_: 0, code: u16::MAX, value: i32::MAX }
    );
}

#[test]
fn decode_of_ten_bytes_fails() {
    let bytes = [1u8; 10];
    assert_eq!(read_input_event(&bytes), Err(DecodeError { available: 10 }));
}

#[test]
fn decode_of_nothing_fails() {
    assert_eq!(read_input_event(&[]), Err(DecodeError { available: 0 }));
}

#[test]
fn decode_of_23_bytes_fails() {
    let bytes = [0u8; 23];
    assert_eq!(read_input_event(&bytes), Err(DecodeError { available: 23 }));
}

#[test]
fn decode_reads_only_the_first_record() {
    let mut bytes = record(7, 8, EV_KEY, 16, KEY_PRESS);
    bytes.extend_from_slice(&record(9, 10, EV_KEY, 17, KEY_RELEASE));
    bytes.push(0xaa);
    let event = read_input_event(&bytes).unwrap();
    assert_eq!(event, InputEvent { tv_sec: 7, tv_usec: 8, type_: EV_KEY, code: 16, value: KEY_PRESS });
}

#[test]
fn encode_writes_fields_at_fixed_offsets() {
    let event = InputEvent {
        tv_sec: 0x0807_0605_0403_0201,
        tv_usec: 0x100f_0e0d_0c0b_0a09,
        type_: 0x1211,
        code: 0x1413,
        value: 0x1817_1615,
    };
    let expected: Vec<u8> = (1..=24).collect();
    assert_eq!(event.to_bytes(), expected);
}

#[test]
fn encode_agrees_with_native_little_endian() {
    let cases = [
        (0i64, 0i64, 0u16, 0u16, 0i32),
        (-1, -1, 0xffff, 0xffff, -1),
        (i64::MIN, i64::MAX, 1, 42, i32::MIN),
        (i64::MAX, i64::MIN, 4, 54, i32::MAX),
        (1_700_000_000, 999_999, 1, 30, 2),
        (-2, 3, 17, 0, -70000),
    ];
    for (tv_sec, tv_usec, type_, code, value) in cases {
        let event = InputEvent { tv_sec, tv_usec, type_, code, value };
        assert_eq!(event.to_bytes(), record(tv_sec, tv_usec, type_, code, value));
    }
}

#[test]
fn decode_then_encode_gives_the_bytes_back() {
    let mut seed: u64 = 0x9e37_79b9_7f4a_7c15;
    for _ in 0..500 {
        let mut bytes = [0u8; 24];
        for byte in bytes.iter_mut() {
            seed = seed.wrapping_mul(6364136223846793005).wrapping_add(1442695040888963407);
            *byte = (seed >> 56) as u8;
        }
        let event = read_input_event(&bytes).unwrap();
        assert_eq!(event.to_bytes(), bytes.to_vec());
    }
    for fill in [0x00u8, 0x7f, 0x80, 0xff] {
        let bytes = [fill; 24];
        let event = read_input_event(&bytes).unwrap();
        assert_eq!(event.to_bytes(), bytes.to_vec());
    }
}

#[test]
fn encode_then_decode_gives_the_event_back() {
    let events = [
        InputEvent { tv_sec: 0, tv_usec: 0, type_: 0, code: 0, value: 0 },
        InputEvent { tv_sec: -1, tv_usec: 1, type_: 1, code: 30, value: 1 },
        InputEvent { tv_sec: i64::MIN, tv_usec: i64::MAX, type_: u16::MAX, code: u16::MAX, value: i32::MIN },
        InputEvent { tv_sec: i64::MAX, tv_usec: i64::MIN, type_: 3, code: 256, value: i32::MAX },
    ];
    for event in events {
        assert_eq!(read_input_event(&event.to_bytes()), Ok(event));
    }
}

#[test]
fn read_le_weighs_bytes_by_position() {
    let bytes = [0x01u8, 0x02, 0x03, 0x04, 0x05, 0x06, 0x07, 0x08, 0x09];
    assert_eq!(read_le(&bytes, 0, 0), 0);
    assert_eq!(read_le(&bytes, 0, 1), 0x01);
    assert_eq!(read_le(&bytes, 0, 2), 0x0201);
    assert_eq!(read_le(&bytes, 1, 2), 0x0302);
    assert_eq!(read_le(&bytes, 2, 4), 0x0605_0403);
    assert_eq!(read_le(&bytes, 1, 8), 0x0908_0706_0504_0302);
    assert_eq!(read_le(&[0xff; 8], 0, 8), u64::MAX);
    assert_eq!(read_le(&bytes, 9, 0), 0);
}

#[test]
fn write_le_appends_low_bytes_first() {
    let mut out = vec![0xeeu8];
    write_le(&mut out, 0x0807_0605_0403_0201, 8);
    assert_eq!(out, vec![0xee, 1, 2, 3, 4, 5, 6, 7, 8]);
    let mut out = Vec::new();
    write_le(&mut out, 0x1234, 2);
    assert_eq!(out, vec![0x34, 0x12]);
    let mut out = Vec::new();
    write_le(&mut out, 0x0102_0304_0506, 4);
    assert_eq!(out, vec![0x06, 0x05, 0x04, 0x03]);
    let mut out = vec![9u8];
    write_le(&mut out, 77, 0);
    assert_eq!(out, vec![9]);
    let mut out = Vec::new();
    write_le(&mut out, 5, 3);
    assert_eq!(out, vec![5, 0, 0]);
}

#[test]
fn twos_complement_of_eight_bytes() {
    assert_eq!(signed_64(0), 0);
    assert_eq!(signed_64(0x7fff_ffff_ffff_ffff), i64::MAX);
    assert_eq!(signed_64(0x8000_0000_0000_0000), i64::MIN);
    assert_eq!(signed_64(u64::MAX), -1);
    assert_eq!(signed_64(u64::MAX - 41), -42);
    assert_eq!(unsigned_64(0), 0);
    assert_eq!(unsigned_64(i64::MAX), 0x7fff_ffff_ffff_ffff);
    assert_eq!(unsigned_64(i64::MIN), 0x8000_0000_0000_0000);
    assert_eq!(unsigned_64(-1), u64::MAX);
    assert_eq!(unsigned_64(-42), u64::MAX - 41);
}

#[test]
fn twos_complement_of_four_bytes() {
    assert_eq!(signed_32(0), 0);
    assert_eq!(signed_32(0x7fff_ffff), i32::MAX);
    assert_eq!(signed_32(0x8000_0000), i32::MIN);
    assert_eq!(signed_32(u32::MAX), -1);
    assert_eq!(unsigned_32(0), 0);
    assert_eq!(unsigned_32(i32::MAX), 0x7fff_ffff);
    assert_eq!(unsigned_32(i32::MIN), 0x8000_0000);
    assert_eq!(unsigned_32(-1), u32::MAX);
    assert_eq!(unsigned_32(-2), u32::MAX - 1);
}

#[test]
fn key_event_is_type_one_only() {
    assert_eq!(EV_KEY, 1);
    assert!(is_key_event(1));
    assert!(!is_key_event(0));
    assert!(!is_key_event(2));
    assert!(!is_key_event(4));
    assert!(!is_key_event(u16::MAX));
}

#[test]
fn press_is_value_one_only() {
    assert_eq!(KEY_PRESS, 1);
    assert!(is_key_press(1));
    assert!(!is_key_press(0));
    assert!(!is_key_press(2));
    assert!(!is_key_press(-1));
    assert!(!is_key_press(i32::MAX));
}

#[test]
fn release_is_value_zero_only() {
    assert_eq!(KEY_RELEASE, 0);
    assert!(is_key_release(0));
    assert!(!is_key_release(1));
    assert!(!is_key_release(2));
    assert!(!is_key_release(-1));
    assert!(!is_key_release(i32::MIN));
}

#[test]
fn autorepeat_is_neither_press_nor_release() {
    assert_eq!(KEY_AUTOREPEAT, 2);
    assert!(!is_key_press(KEY_AUTOREPEAT));
    assert!(!is_key_release(KEY_AUTOREPEAT));
}

#[test]
fn shift_codes_are_left_and_right_shift() {
    assert_eq!(KEY_LEFTSHIFT, 42);
    assert_eq!(KEY_RIGHTSHIFT, 54);
    for code in 0..=u16::MAX {
        assert_eq!(is_shift(code), code == 42 || code == 54);
    }
}
