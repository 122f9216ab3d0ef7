use chips_display::errors::ChipsError;
use chips_display::header::{
    decode_compact_header, kd_draw, kd_draw_buf, make_hint_byte, send_command,
    send_command_121, send_command_122, send_command_code, send_command_delayed,
    send_command_simple, write_compact_header, write_extended_header, zeroed, CompactFields,
};

#[test]
fn compact_header_exact_bytes() {
    let frame = send_command_simple(195, 1, 2, 3, 4);
    assert_eq!(frame.bytes, vec![0, 64, 32, 12, 4, 195]);
    assert_eq!(frame.delay_ms, 5);
}

#[test]
fn compact_header_of_full_screen_region() {
    // left 0, top 0, right 799, bottom 479
    let frame = send_command_simple(197, 0, 0, 799, 479);
    assert_eq!(frame.bytes, vec![0, 0, (799 >> 6) as u8, (((799 & 63) << 2) | 1) as u8, 223, 197]);
}

#[test]
fn compact_header_round_trip() {
    let values = [0, 1, 2, 3, 4, 15, 16, 63, 64, 255, 256, 479, 480, 799, 800, 1000, 1023];
    for &left in &values {
        for &top in &values {
            for &right in &values {
                for &bottom in &[0, 5, 255, 256, 600, 1023] {
                    let frame = send_command_simple(42, left, top, right, bottom);
                    let fields = decode_compact_header(&frame.bytes);
                    assert_eq!(
                        fields,
                        Some(CompactFields { code: 42, left, top, right, bottom })
                    );
                }
            }
        }
    }
}

#[test]
fn compact_header_cuts_wide_fields() {
    // 1024 does not fit ten bits: its low ten bits are zero
    let wide = send_command_simple(7, 1024, 0, 0, 0);
    let zero = send_command_simple(7, 0, 0, 0, 0);
    assert_eq!(wide.bytes, zero.bytes);
}

#[test]
fn decode_needs_six_bytes() {
    assert_eq!(decode_compact_header(&[1, 2, 3, 4, 5]), None);
    assert!(decode_compact_header(&[1, 2, 3, 4, 5, 6]).is_some());
}

#[test]
fn short_buffer_is_invalid_length() {
    let result = send_command(195, 0, 0, 0, 0, vec![0; 5]);
    assert_eq!(
        result.err(),
        Some(ChipsError::InvalidLength { received: 5, expected: 6 })
    );
    let result = send_command_delayed(195, 0, 0, 0, 0, Vec::new(), 9);
    assert_eq!(
        result.err(),
        Some(ChipsError::InvalidLength { received: 0, expected: 6 })
    );
    let mut data = vec![9u8; 3];
    assert_eq!(
        write_compact_header(&mut data, 1, 2, 3, 4, 5),
        Err(ChipsError::InvalidLength { received: 3, expected: 6 })
    );
    assert_eq!(data, vec![9, 9, 9]);
}

#[test]
fn send_command_keeps_the_tail() {
    let mut data = vec![0u8; 10];
    data[6] = 0xAA;
    data[9] = 0xBB;
    let frame = send_command_delayed(121, 1, 2, 3, 4, data, 17).unwrap();
    assert_eq!(frame.bytes, vec![0, 64, 32, 12, 4, 121, 0xAA, 0, 0, 0xBB]);
    assert_eq!(frame.delay_ms, 17);
    let frame = send_command(121, 1, 2, 3, 4, vec![0; 6]).unwrap();
    assert_eq!(frame.delay_ms, 5);
}

#[test]
fn command_code_frame() {
    let frame = send_command_code(109);
    assert_eq!(frame.bytes, vec![0, 0, 0, 0, 0, 109]);
    assert_eq!(frame.delay_ms, 5);
}

#[test]
fn mode_commands_exact_bytes() {
    let mirror = send_command_122(1);
    assert_eq!(mirror.bytes, vec![0, 0, 0, 0, 0, 122, 1, 0, 0, 0, 0, 0, 0, 0, 0, 0]);
    let orientation = send_command_121(3, 800, 480);
    assert_eq!(
        orientation.bytes,
        vec![0, 0, 0, 0, 0, 121, 103, 3, 32, 1, 224, 0, 0, 0, 0, 0]
    );
    assert_eq!(orientation.delay_ms, 5);
}

#[test]
fn extended_header_exact_bytes() {
    let frame = kd_draw(136, 0x0102, 0x0304, 0x0506, 0x0708, 0x090A, 0x0B);
    assert_eq!(frame.bytes, vec![1, 2, 3, 4, 5, 6, 7, 8, 9, 10, 11, 136]);
    assert_eq!(frame.delay_ms, 5);
}

#[test]
fn extended_header_keeps_the_tail() {
    let mut data = vec![0u8; 14];
    data[12] = 0xCC;
    data[13] = 0xDD;
    let frame = kd_draw_buf(137, 10, 250, 2, 0x3A0A, 0xE673, 0x44, data);
    assert_eq!(
        frame.bytes,
        vec![0, 10, 0, 250, 0, 2, 0x3A, 0x0A, 0xE6, 0x73, 0x44, 137, 0xCC, 0xDD]
    );
    let mut again = vec![0u8; 12];
    write_extended_header(&mut again, 137, 10, 250, 2, 0x3A0A, 0xE673, 0x44);
    assert_eq!(again, frame.bytes[..12].to_vec());
}

#[test]
fn extended_header_color_round_trip() {
    for color in [0u16, 1, 0x00FF, 0x0100, 0x1234, 0xF800, 0xFFFF] {
        let frame = kd_draw(136, 0, 0, 0, 0, color, 0);
        let back = ((frame.bytes[8] as u16) << 8) | frame.bytes[9] as u16;
        assert_eq!(back, color);
    }
}

#[test]
fn extended_header_field_round_trip() {
    for value in [0, 1, 255, 256, 799, 32768, 65535] {
        let frame = kd_draw(1, value, value, value, value, 0, 0);
        for at in [0usize, 2, 4, 6] {
            let back = ((frame.bytes[at] as i32) << 8) | frame.bytes[at + 1] as i32;
            assert_eq!(back, value);
        }
    }
}

#[test]
fn hint_byte_exact_values() {
    // ((0xF800 >> 2) + 2) & 15 = 2, ((10 >> 3) + 3) & 240 = 0
    assert_eq!(make_hint_byte(0xF800, 10), 2);
    // ((0xFFFF >> 2) + 2) & 15 = 1, ((480 >> 3) + 3) & 240 = 48
    assert_eq!(make_hint_byte(0xFFFF, 480), 49);
    // two colours: fg 0xE673, bg 0x3A0A
    let low = ((0xE673 >> 2) + 2) & 15;
    let high = ((0x3A0A >> 3) + 3) & 240;
    assert_eq!(make_hint_byte(0xE673, 0x3A0A), (low | high) as u8);
    assert_eq!(make_hint_byte(0, 0), 2);
}

#[test]
fn zeroed_buffer() {
    assert_eq!(zeroed(0), Vec::<u8>::new());
    assert_eq!(zeroed(5), vec![0u8; 5]);
}
