use chips_display::color::Color;
use chips_display::device::ChipsDevice;
use chips_display::errors::ChipsError;
use chips_display::point::{Point, Screen};
use chips_display::widget_renderer::WidgetRenderer;
use image::{DynamicImage, Rgb, RgbImage};

fn connected() -> ChipsDevice {
    let mut device = ChipsDevice::new(Screen::standard());
    device.connect();
    device
}

fn bytes(frames: &[chips_display::frame::Frame]) -> Vec<Vec<u8>> {
    frames.iter().map(|f| f.bytes.clone()).collect()
}

#[test]
fn rectangle_by_extent() {
    let device = connected();
    let renderer = WidgetRenderer::new(&device);
    let color = Color::new(63, 67, 81);
    let by_extent = renderer.render_rectangle(5, 6, 10, 20, color);
    let by_corners = device.draw_rectangle(5, 6, 15, 26, color);
    assert_eq!(by_extent.result, Ok(()));
    assert_eq!(bytes(&by_extent.frames), bytes(&by_corners.frames));
    assert_eq!(by_extent.frames[0].bytes[..8], [0, 5, 0, 6, 0, 15, 0, 26]);
}

#[test]
fn rectangle_edge_beyond_32_bits_is_cut() {
    let device = connected();
    let renderer = WidgetRenderer::new(&device);
    let transfer = renderer.render_rectangle(i32::MAX, 0, 1, 0, Color::new(0, 0, 0));
    assert_eq!(transfer.result, Ok(()));
    // i32::MAX + 1 has its low 16 bits clear
    assert_eq!(transfer.frames[0].bytes[4..6], [0, 0]);
}

#[test]
fn graph_background() {
    let device = connected();
    let renderer = WidgetRenderer::new(&device);
    let color = Color::new(228, 207, 154);
    let background = renderer.render_graph_background(320, 250, 200, 100, color);
    let rectangle = device.draw_rectangle(320, 50, 420, 250, color);
    assert_eq!(background.result, Ok(()));
    assert_eq!(bytes(&background.frames), bytes(&rectangle.frames));
}

#[test]
fn graphs_by_count() {
    let device = connected();
    let renderer = WidgetRenderer::new(&device);
    let data: Vec<u8> = (0..200).collect();
    let bg = Color::new(63, 67, 81);
    let fg = Color::new(228, 207, 154);
    let bars = renderer.render_bar_graph(0, 250, 100, bg, fg, &data);
    assert_eq!(bytes(&bars.frames), bytes(&device.draw_bar_graph(0, 250, 100, bg, fg, &data).frames));
    assert_eq!(bars.frames.len(), 2);
    let line = renderer.render_line_graph(320, 250, 100, bg, fg, &data);
    assert_eq!(
        bytes(&line.frames),
        bytes(&device.draw_line_graph(320, 250, 100, bg, fg, &data).frames)
    );
    assert_eq!(line.frames.len(), 2);
    assert!(renderer.render_bar_graph(0, 0, 0, bg, fg, &data).frames.is_empty());
}

#[test]
fn pixels_and_image_through_the_renderer() {
    let device = connected();
    let renderer = WidgetRenderer::new(&device);
    let color = Color::new(1, 2, 3);
    let points = [Point::new(150, 50), Point::new(350, 250)];
    let drawn = renderer.render_pixels(color, &points);
    assert_eq!(drawn.result, Ok(()));
    assert_eq!(bytes(&drawn.frames), bytes(&device.draw_pixels(color, &points).frames));
    assert_eq!(drawn.frames.len(), 2);
    let image = DynamicImage::ImageRgb8(RgbImage::from_pixel(2, 2, Rgb([0, 0, 255])));
    let blit = renderer.render_image(&image, 0, 0);
    assert_eq!(blit.result, Ok(()));
    assert_eq!(blit.frames[1].bytes, vec![0x00, 0x1F, 0x00, 0x1F, 0x00, 0x1F, 0x00, 0x1F]);
    assert_eq!(renderer.render_image(&image, 799, 0).result, Err(ChipsError::ImageTooLarge));
}

#[test]
fn renderer_on_a_disconnected_device() {
    let device = ChipsDevice::new(Screen::standard());
    let renderer = WidgetRenderer::new(&device);
    let transfer = renderer.render_rectangle(0, 0, 1, 1, Color::new(0, 0, 0));
    assert_eq!(transfer.result, Err(ChipsError::PeripheralAbsent));
    assert!(transfer.frames.is_empty());
    let transfer = renderer.render_text(&[], 0, 0, Color::new(0, 0, 0));
    assert_eq!(transfer.result, Err(ChipsError::PeripheralAbsent));
}
