//! Widgets: drawing requests in terms of position and extent.

use vstd::prelude::*;
use image::DynamicImage;
use crate::chunk::{bar_frames, line_frames};
use crate::color::Color;
use crate::decoded::{image_height, image_rgb8, image_width};
use crate::device::{
    image_transfer, on_device, pixel_transfer, rectangle_frame, sent, ChipsDevice,
};
use crate::frame::Transfer;
use crate::glyph::{glyph_models, text_coordinates, text_points, Glyph};
use crate::partition::point_models;
use crate::point::Point;

verus! {

/// Draws widgets on one device.
pub struct WidgetRenderer<'a> {
    device: &'a ChipsDevice,
}

impl<'a> WidgetRenderer<'a> {
    /// The device that this renderer draws on.
    pub closed spec fn device(&self) -> ChipsDevice {
        *self.device
    }

    pub fn new(device: &'a ChipsDevice) -> (renderer: Self)
        ensures
            renderer.device() == *device,
    {
        Self { device }
    }

    /// Draws a decoded image with its top left corner at `(x, y)`.
    pub fn render_image(&self, image: &DynamicImage, x: i32, y: i32) -> (transfer: Transfer)
        ensures
            transfer@ == on_device(
                self.device()@.connected,
                image_transfer(
                    self.device()@.screen,
                    image_width(*image),
                    image_height(*image),
                    image_rgb8(*image),
                    x,
                    y,
                ),
            ),
    {
        self.device.draw_image(image, x, y)
    }

    /// Fills the rectangle of the given extent whose top left corner is at
    /// `(x, y)`. A far edge beyond 32 bits is cut to its low 32 bits.
    pub fn render_rectangle(
        &self,
        x: i32,
        y: i32,
        width: i32,
        height: i32,
        color: Color,
    ) -> (transfer: Transfer)
        ensures
            transfer@ == on_device(
                self.device()@.connected,
                sent(
                    seq![
                        rectangle_frame(
                            x,
                            y,
                            (x + width) as i32,
                            (y + height) as i32,
                            color.serial(),
                        ),
                    ],
                ),
            ),
    {
        let right: i32 = #[verifier::truncate] ((x as i64 + width as i64) as i32);
        let bottom: i32 = #[verifier::truncate] ((y as i64 + height as i64) as i32);
        self.device.draw_rectangle(x, y, right, bottom, color)
    }

    /// Draws the first `count` samples of `data` as a bar graph.
    pub fn render_bar_graph(
        &self,
        x: i32,
        y: i32,
        count: i32,
        color_bg: Color,
        color_fg: Color,
        data: &[u8],
    ) -> (transfer: Transfer)
        requires
            0 <= count <= data@.len(),
        ensures
            transfer@ == on_device(
                self.device()@.connected,
                sent(
                    bar_frames(data@, count as nat, x, y, color_bg.serial(), color_fg.serial()),
                ),
            ),
    {
        self.device.draw_bar_graph(x, y, count as usize, color_bg, color_fg, data)
    }

    /// Draws the first `count` samples of `data` as a line graph.
    pub fn render_line_graph(
        &self,
        x: i32,
        y: i32,
        count: i32,
        color_bg: Color,
        color_fg: Color,
        data: &[u8],
    ) -> (transfer: Transfer)
        requires
            0 <= count <= data@.len(),
        ensures
            transfer@ == on_device(
                self.device()@.connected,
                sent(
                    line_frames(data@, count as nat, x, y, color_bg.serial(), color_fg.serial()),
                ),
            ),
    {
        self.device.draw_line_graph(x, y, count as usize, color_bg, color_fg, data)
    }

    /// Fills the background of a graph of `count` samples and the given
    /// height whose baseline starts at `(x, y)`.
    pub fn render_graph_background(
        &self,
        x: i32,
        y: i32,
        height: i32,
        count: i32,
        color: Color,
    ) -> (transfer: Transfer)
        ensures
            transfer@ == on_device(
                self.device()@.connected,
                sent(
                    seq![
                        rectangle_frame(
                            x,
                            (y - height) as i32,
                            (x + count) as i32,
                            y,
                            color.serial(),
                        ),
                    ],
                ),
            ),
    {
        let top: i32 = #[verifier::truncate] ((y as i64 - height as i64) as i32);
        let right: i32 = #[verifier::truncate] ((x as i64 + count as i64) as i32);
        self.device.draw_rectangle(x, top, right, y, color)
    }

    /// Draws a set of points in one colour.
    pub fn render_pixels(&self, color: Color, points: &[Point]) -> (transfer: Transfer)
        ensures
            transfer@ == on_device(
                self.device()@.connected,
                pixel_transfer(color.serial(), point_models(points@)),
            ),
    {
        self.device.draw_pixels(color, points)
    }

    /// Draws a text, given as its rasterised glyphs, in one colour with its
    /// origin at `(x, y)`: every cell with any coverage becomes a point.
    pub fn render_text(&self, glyphs: &[Glyph], x: i32, y: i32, color: Color) -> (transfer:
        Transfer)
        ensures
            transfer@ == on_device(
                self.device()@.connected,
                pixel_transfer(color.serial(), text_points(glyph_models(glyphs@), x, y)),
            ),
    {
        let text_coordinate_list = text_coordinates(glyphs, x, y);
        self.render_pixels(color, text_coordinate_list.as_slice())
    }
}

} // verus!
