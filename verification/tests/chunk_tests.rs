use chips_display::chunk::{bar_graph_chunks, copy_into, draw_pixels_raw, line_graph_chunks};
use chips_display::color::Color;
use chips_display::frame::Frame;
use chips_display::header::decode_compact_header;

fn ramp(n: usize) -> Vec<u8> {
    (0..n).map(|i| (i % 251) as u8 + 1).collect()
}

fn joined(frames: &[Frame], reserved: usize, lens: &[usize]) -> Vec<u8> {
    let mut all = Vec::new();
    for (frame, len) in frames.iter().zip(lens) {
        all.extend_from_slice(&frame.bytes[reserved..reserved + len]);
    }
    all
}

fn field(frame: &Frame, at: usize) -> i32 {
    ((frame.bytes[at] as i32) << 8) | frame.bytes[at + 1] as i32
}

#[test]
fn thirty_points_take_two_frames() {
    let coordinates = ramp(60);
    let frames = draw_pixels_raw(0, 0, Color::new(255, 0, 0), &coordinates);
    assert_eq!(frames.len(), 2);
    let first = decode_compact_header(&frames[0].bytes).unwrap();
    let second = decode_compact_header(&frames[1].bytes).unwrap();
    assert_eq!(first.right, 28);
    assert_eq!(second.right, 2);
    assert_eq!(first.code, 195);
    assert_eq!(second.code, 195);
    assert_eq!(frames[0].bytes[8..64], coordinates[0..56]);
    assert_eq!(frames[1].bytes[8..12], coordinates[56..60]);
    assert_eq!(frames[1].bytes[12..64], [0u8; 52]);
}

#[test]
fn pixel_frame_layout() {
    let frames = draw_pixels_raw(300, 400, Color::new(63, 67, 81), &[1, 2, 3, 4]);
    assert_eq!(frames.len(), 1);
    let frame = &frames[0];
    assert_eq!(frame.bytes.len(), 64);
    assert_eq!(frame.delay_ms, 5);
    let fields = decode_compact_header(&frame.bytes).unwrap();
    assert_eq!((fields.left, fields.top, fields.right, fields.bottom), (300, 400, 2, 0));
    assert_eq!(frame.bytes[6], 0x3A);
    assert_eq!(frame.bytes[7], 0x0A);
    assert_eq!(frame.bytes[8..12], [1, 2, 3, 4]);
    assert_eq!(frame.bytes[12..64], [0u8; 52]);
}

#[test]
fn pixel_frame_counts() {
    let color = Color::new(1, 2, 3);
    for (bytes, frames) in [(0, 0), (2, 1), (54, 1), (56, 1), (58, 2), (112, 2), (114, 3), (560, 10)] {
        let coordinates = ramp(bytes);
        let got = draw_pixels_raw(0, 0, color, &coordinates);
        assert_eq!(got.len(), frames);
        assert_eq!(got.len(), (bytes + 55) / 56);
        let lens: Vec<usize> = (0..got.len()).map(|i| (bytes - i * 56).min(56)).collect();
        assert_eq!(joined(&got, 8, &lens), coordinates);
        for frame in &got {
            assert_eq!(frame.bytes.len(), 64);
        }
    }
}

#[test]
fn pixel_frames_zero_the_tail() {
    let coordinates = vec![0xFFu8; 58];
    let frames = draw_pixels_raw(0, 0, Color::new(0, 0, 0), &coordinates);
    assert_eq!(frames[1].bytes[8..10], [0xFF, 0xFF]);
    assert_eq!(frames[1].bytes[10..64], [0u8; 54]);
}

#[test]
fn bar_graph_of_a_hundred_samples() {
    let data = ramp(300);
    let bg = Color::new(63, 67, 81);
    let fg = Color::new(228, 207, 154);
    let frames = bar_graph_chunks(7, 250, 100, bg, fg, &data);
    assert_eq!(frames.len(), 2);
    assert_eq!(field(&frames[0], 0), 7);
    assert_eq!(field(&frames[1], 0), 7 + 52);
    assert_eq!(field(&frames[0], 2), 250);
    assert_eq!(field(&frames[0], 4), 52);
    assert_eq!(field(&frames[1], 4), 48);
    for frame in &frames {
        assert_eq!(frame.bytes.len(), 64);
        assert_eq!(field(frame, 6), 0x3A0A);
        assert_eq!(field(frame, 8), 0xE673);
        assert_eq!(frame.bytes[11], 137);
        let low = ((0xE673 >> 2) + 2) & 15;
        let high = ((0x3A0A >> 3) + 3) & 240;
        assert_eq!(frame.bytes[10], (low | high) as u8);
    }
    assert_eq!(frames[0].delay_ms, 5);
    assert_eq!(frames[1].delay_ms, 10);
    assert_eq!(joined(&frames, 12, &[52, 48]), data[..100]);
    assert_eq!(frames[1].bytes[12 + 48..], [0u8; 4]);
}

#[test]
fn bar_graph_frame_counts() {
    let data = ramp(200);
    let c = Color::new(0, 0, 0);
    for (count, frames) in [(0, 0), (1, 1), (52, 1), (53, 2), (104, 2), (105, 3), (200, 4)] {
        let got = bar_graph_chunks(0, 0, count, c, c, &data);
        assert_eq!(got.len(), frames);
        assert_eq!(got.len(), (count + 51) / 52);
        let lens: Vec<usize> = (0..got.len()).map(|i| (count - i * 52).min(52)).collect();
        assert_eq!(joined(&got, 12, &lens), data[..count]);
        for (i, frame) in got.iter().enumerate() {
            assert_eq!(frame.delay_ms, if i + 1 == got.len() { 10 } else { 5 });
        }
    }
}

#[test]
fn line_graph_of_a_hundred_samples() {
    let data = ramp(300);
    let bg = Color::new(63, 67, 81);
    let fg = Color::new(228, 207, 154);
    let frames = line_graph_chunks(320, 250, 100, bg, fg, &data);
    assert_eq!(frames.len(), 2);
    assert_eq!(field(&frames[0], 0), (320 + 1) | 32768);
    assert_eq!(field(&frames[1], 0), 320 + 51 + 1);
    assert_eq!(field(&frames[0], 4), 51);
    assert_eq!(field(&frames[1], 4), 49);
    assert_eq!(frames[0].bytes[11], 144);
    assert_eq!(frames[0].bytes[12..64], data[0..52]);
    assert_eq!(frames[1].bytes[12..62], data[51..101]);
    assert_eq!(frames[1].bytes[62..64], [0u8; 2]);
    // the boundary sample is shared
    assert_eq!(frames[0].bytes[12 + 51], frames[1].bytes[12]);
    assert_eq!(joined(&frames, 12, &[51, 49]), data[..100]);
    assert_eq!(frames[0].delay_ms, 5);
    assert_eq!(frames[1].delay_ms, 10);
}

#[test]
fn line_graph_does_not_read_past_the_data() {
    let data = ramp(100);
    let c = Color::new(9, 9, 9);
    let frames = line_graph_chunks(0, 0, 100, c, c, &data);
    assert_eq!(frames.len(), 2);
    assert_eq!(frames[1].bytes[12..61], data[51..100]);
    assert_eq!(frames[1].bytes[61..64], [0u8; 3]);
    let full = ramp(51);
    let frames = line_graph_chunks(0, 0, 51, c, c, &full);
    assert_eq!(frames.len(), 1);
    assert_eq!(frames[0].bytes[12..63], full[..]);
    assert_eq!(frames[0].bytes[63], 0);
}

#[test]
fn line_graph_frame_counts() {
    let data = ramp(200);
    let c = Color::new(0, 0, 0);
    for (count, frames) in [(0, 0), (1, 1), (51, 1), (52, 2), (102, 2), (103, 3), (200, 4)] {
        let got = line_graph_chunks(5, 6, count, c, c, &data);
        assert_eq!(got.len(), frames);
        assert_eq!(got.len(), (count + 50) / 51);
        let lens: Vec<usize> = (0..got.len()).map(|i| (count - i * 51).min(51)).collect();
        assert_eq!(joined(&got, 12, &lens), data[..count]);
        for pair in got.windows(2) {
            assert_eq!(pair[0].bytes[12 + 51], pair[1].bytes[12]);
        }
        for (i, frame) in got.iter().enumerate() {
            assert_eq!(frame.bytes.len(), 64);
            let start = (5 + i * 51 + 1) as i32;
            assert_eq!(field(frame, 0), if i == 0 { start | 32768 } else { start });
        }
    }
}

#[test]
fn copy_into_replaces_a_range() {
    let mut buf = vec![0u8; 8];
    copy_into(&mut buf, 2, &[10, 11, 12, 13, 14], 1, 3);
    assert_eq!(buf, vec![0, 0, 11, 12, 13, 0, 0, 0]);
    copy_into(&mut buf, 0, &[1], 0, 0);
    assert_eq!(buf, vec![0, 0, 11, 12, 13, 0, 0, 0]);
}
