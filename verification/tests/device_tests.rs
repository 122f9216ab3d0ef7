use chips_display::color::Color;
use chips_display::device::ChipsDevice;
use chips_display::errors::ChipsError;
use chips_display::frame::Transfer;
use chips_display::point::{Point, Screen};
use image::{DynamicImage, RgbImage};

fn connected() -> ChipsDevice {
    let mut device = ChipsDevice::new(Screen::standard());
    device.connect();
    device
}

fn absent(transfer: &Transfer) -> bool {
    transfer.frames.is_empty() && transfer.result == Err(ChipsError::PeripheralAbsent)
}

#[test]
fn a_new_device_is_disconnected() {
    let device = ChipsDevice::new(Screen::new(480, 320));
    assert!(!device.is_connected());
    assert_eq!(device.screen(), Screen { width: 480, height: 320 });
    assert_eq!(Screen::standard(), Screen { width: 800, height: 480 });
}

#[test]
fn connect_then_shutdown() {
    let mut device = ChipsDevice::new(Screen::standard());
    device.connect();
    assert!(device.is_connected());
    let transfer = device.shutdown();
    assert_eq!(transfer.result, Ok(()));
    assert_eq!(transfer.frames.len(), 1);
    assert_eq!(transfer.frames[0].bytes, vec![0, 0, 0, 0, 0, 108]);
    assert_eq!(transfer.frames[0].delay_ms, 5);
    assert!(!device.is_connected());
    assert!(absent(&device.shutdown()));
}

#[test]
fn restart_pauses_and_disconnects() {
    let mut device = connected();
    let transfer = device.restart();
    assert_eq!(transfer.result, Ok(()));
    assert_eq!(transfer.frames.len(), 1);
    assert_eq!(transfer.frames[0].bytes, vec![0, 0, 0, 0, 0, 101]);
    assert_eq!(transfer.frames[0].delay_ms, 1005);
    assert!(!device.is_connected());
    assert!(absent(&device.restart()));
    device.connect();
    assert!(device.is_connected());
}

#[test]
fn drawing_leaves_the_session_connected() {
    let device = connected();
    let _ = device.draw_rectangle(0, 0, 1, 1, Color::new(1, 1, 1));
    let _ = device.draw_pixels(Color::new(1, 1, 1), &[Point::new(300, 300), Point::new(900, 300)]);
    let _ = device.draw_raster(900, 1, &[], 0, 0);
    assert!(device.is_connected());
}

#[test]
fn a_disconnected_device_draws_nothing() {
    let device = ChipsDevice::new(Screen::standard());
    let color = Color::new(1, 2, 3);
    let image = DynamicImage::ImageRgb8(RgbImage::new(1, 1));
    assert!(absent(&device.startup()));
    assert!(absent(&device.set_brightness(100)));
    assert!(absent(&device.adjust_screen(true, true, true)));
    assert!(absent(&device.draw_rectangle(0, 0, 10, 10, color)));
    assert!(absent(&device.draw_bar_graph(0, 0, 1, color, color, &[1])));
    assert!(absent(&device.draw_line_graph(0, 0, 1, color, color, &[1])));
    assert!(absent(&device.draw_pixels(color, &[Point::new(1, 1)])));
    assert!(absent(&device.draw_raster(1, 1, &[0, 0, 0], 0, 0)));
    assert!(absent(&device.draw_image(&image, 0, 0)));
    // also where the request itself would fail
    assert!(absent(&device.draw_raster(900, 1, &[], 0, 0)));
    assert!(absent(&device.draw_pixels(color, &[Point::new(300, 1), Point::new(900, 1)])));
}

#[test]
fn startup_frames() {
    let transfer = connected().startup();
    assert_eq!(transfer.result, Ok(()));
    let bytes: Vec<Vec<u8>> = transfer.frames.iter().map(|f| f.bytes.clone()).collect();
    assert_eq!(
        bytes,
        vec![
            vec![0, 0, 0, 0, 0, 109],
            vec![0, 0, 0, 0, 0, 122, 0, 0, 0, 0, 0, 0, 0, 0, 0, 0],
            vec![0, 0, 0, 0, 0, 121, 103, 3, 32, 1, 224, 0, 0, 0, 0, 0],
        ]
    );
    for frame in &transfer.frames {
        assert_eq!(frame.delay_ms, 5);
    }
}

#[test]
fn brightness_frame() {
    let transfer = connected().set_brightness(100);
    assert_eq!(transfer.result, Ok(()));
    assert_eq!(transfer.frames.len(), 1);
    assert_eq!(transfer.frames[0].bytes, vec![25, 0, 0, 0, 0, 110]);
}

#[test]
fn adjust_screen_modes() {
    let device = connected();
    for (landscape, invert, mode) in
        [(false, false, 0u8), (false, true, 1), (true, false, 2), (true, true, 3)]
    {
        for mirror in [false, true] {
            let transfer = device.adjust_screen(mirror, landscape, invert);
            assert_eq!(transfer.result, Ok(()));
            assert_eq!(transfer.frames.len(), 2);
            assert_eq!(transfer.frames[0].bytes[5], 122);
            assert_eq!(transfer.frames[0].bytes[6], mirror as u8);
            assert_eq!(transfer.frames[1].bytes[5], 121);
            assert_eq!(transfer.frames[1].bytes[6], 100 + mode);
        }
    }
}

#[test]
fn adjust_screen_sends_the_configured_extent() {
    let mut device = ChipsDevice::new(Screen::new(1024, 600));
    device.connect();
    let transfer = device.adjust_screen(false, false, false);
    assert_eq!(transfer.frames[1].bytes[7..11], [4, 0, 2, 88]);
}

#[test]
fn rectangle_frame() {
    let transfer = connected().draw_rectangle(0, 0, 10, 10, Color::new(63, 67, 81));
    assert_eq!(transfer.result, Ok(()));
    assert_eq!(transfer.frames.len(), 1);
    let hint = ((((0x3A0A >> 2) + 2) & 15) | (((10 >> 3) + 3) & 240)) as u8;
    assert_eq!(
        transfer.frames[0].bytes,
        vec![0, 0, 0, 0, 0, 10, 0, 10, 0x3A, 0x0A, hint, 136]
    );
    assert_eq!(transfer.frames[0].delay_ms, 5);
}

#[test]
fn rectangle_color_round_trip() {
    // (248, 252, 248) is its own 5-6-5 approximation
    let transfer = connected().draw_rectangle(1, 2, 3, 4, Color::new(248, 252, 248));
    let bytes = &transfer.frames[0].bytes;
    let color = ((bytes[8] as u16) << 8) | bytes[9] as u16;
    assert_eq!(color, Color::new(248, 252, 248).as_serial());
    assert_eq!(color, 0xFFFF);
    assert_eq!((color >> 11) << 3, 248);
    assert_eq!(((color >> 5) & 0x3F) << 2, 252);
    assert_eq!((color & 0x1F) << 3, 248);
}

#[test]
fn graphs_through_the_device() {
    let device = connected();
    let data: Vec<u8> = (0..120).collect();
    let bg = Color::new(63, 67, 81);
    let fg = Color::new(228, 207, 154);
    let bars = device.draw_bar_graph(0, 250, 100, bg, fg, &data);
    assert_eq!(bars.result, Ok(()));
    assert_eq!(bars.frames.len(), 2);
    assert_eq!(bars.frames[0].bytes[11], 137);
    assert_eq!(bars.frames[0].bytes[12..64], data[0..52]);
    let line = device.draw_line_graph(320, 250, 100, bg, fg, &data);
    assert_eq!(line.result, Ok(()));
    assert_eq!(line.frames.len(), 2);
    assert_eq!(line.frames[0].bytes[11], 144);
    assert_eq!(line.frames[0].bytes[0], 0x80 | 1);
    assert_eq!(line.frames[0].bytes[1], 65);
    assert_eq!(line.frames[1].bytes[12..62], data[51..101]);
}
