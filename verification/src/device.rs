//! Device session and drawing primitives.
//!
//! A device is either disconnected or connected. Every operation needs a
//! connected device and says so where it has none; on a connected device it
//! returns the frames to write, in order.

use vstd::prelude::*;
use image::DynamicImage;
use crate::chunk::{
    bar_frames, bar_graph_chunks, draw_pixels_raw, line_frames, line_graph_chunks, pixel_frames,
};
use crate::color::Color;
use crate::decoded::{
    dynamic_height, dynamic_rgb8, dynamic_width, image_height, image_rgb8, image_width,
};
use crate::errors::ChipsError;
use crate::frame::{
    frame_models, lemma_frame_models_add, Frame, FrameModel, Transfer, TransferModel,
    FRAME_DELAY_MS, IMAGE_DELAY_MS, RESTART_DELAY_MS,
};
use crate::header::{
    extended_header, hint_byte, kd_draw, make_hint_byte, mirror_command, orientation_command,
    send_command_121, send_command_122, send_command_code, send_command_simple, simple_command,
    CODE_BRIGHTNESS, CODE_IMAGE_REGION, CODE_POWER_OFF, CODE_POWER_ON, CODE_RECTANGLE,
    CODE_RESTART,
};
use crate::partition::{
    coordinate_bytes, encode_far, far_points, fits_window, min_x, min_y, near_points,
    point_models, split_points,
};
use crate::point::{Point, Screen};
use crate::raster::{fits_screen, image_to_buffer, lowered};

verus! {

/// A request that went through with these frames.
pub open spec fn sent(frames: Seq<FrameModel>) -> TransferModel {
    TransferModel { frames, result: Ok(()) }
}

/// A request that failed before any frame was due.
pub open spec fn failed(error: ChipsError) -> TransferModel {
    TransferModel { frames: Seq::empty(), result: Err(error) }
}

/// What a request comes to on a device: on a connected one what the request
/// itself comes to, on a disconnected one a failure without frames.
pub open spec fn on_device(connected: bool, transfer: TransferModel) -> TransferModel {
    if connected {
        transfer
    } else {
        failed(ChipsError::PeripheralAbsent)
    }
}

/// The orientation mode for a landscape and an invert flag: 0 for neither,
/// 1 for invert alone, 2 for landscape alone, 3 for both.
pub open spec fn orientation_mode(is_landscape: bool, is_invert: bool) -> u8 {
    if is_landscape && !is_invert {
        2
    } else if !is_landscape && is_invert {
        1
    } else if !is_landscape && !is_invert {
        0
    } else {
        3
    }
}

/// The two frames that set mirroring and orientation for a screen.
pub open spec fn screen_frames(
    screen: Screen,
    is_mirror: bool,
    is_landscape: bool,
    is_invert: bool,
) -> Seq<FrameModel> {
    seq![
        mirror_command(if is_mirror { 1u8 } else { 0u8 }),
        orientation_command(
            orientation_mode(is_landscape, is_invert),
            screen.width,
            screen.height,
        ),
    ]
}

/// The frames that power the peripheral on and set up its screen.
pub open spec fn startup_frames(screen: Screen) -> Seq<FrameModel> {
    seq![simple_command(CODE_POWER_ON, 0, 0, 0, 0)] + screen_frames(screen, false, true, true)
}

/// The restart frame: the restart command, and a pause long enough for the
/// peripheral to come back.
pub open spec fn restart_frame() -> FrameModel {
    FrameModel {
        bytes: simple_command(CODE_RESTART, 0, 0, 0, 0).bytes,
        delay_ms: (FRAME_DELAY_MS + RESTART_DELAY_MS) as u64,
    }
}

/// The frame that fills a rectangle: an extended header with the bounding
/// box, the colour and the hint byte of colour and bottom.
pub open spec fn rectangle_frame(
    left: i32,
    top: i32,
    right: i32,
    bottom: i32,
    color: u16,
) -> FrameModel {
    FrameModel {
        bytes: extended_header(
            CODE_RECTANGLE,
            left,
            top,
            right,
            bottom,
            color,
            hint_byte(color, bottom),
        ),
        delay_ms: FRAME_DELAY_MS,
    }
}

/// What drawing a set of points comes to. The near points go first, with no
/// offset. The far points follow, anchored at their own least x and least
/// y; where they do not fit their window, the near points' frames stand
/// beside the failure.
pub open spec fn pixel_transfer(color: u16, points: Seq<(int, int)>) -> TransferModel {
    let near = pixel_frames(coordinate_bytes(near_points(points), 0, 0), 0, 0, color);
    let far = far_points(points);
    if fits_window(far) {
        sent(
            near + pixel_frames(
                coordinate_bytes(far, min_x(far), min_y(far)),
                min_x(far) as i32,
                min_y(far) as i32,
                color,
            ),
        )
    } else {
        TransferModel { frames: near, result: Err(ChipsError::BoundsTooLarge) }
    }
}

/// What drawing an image comes to. An image that does not fit the screen
/// where it is placed fails before anything else is looked at; so does one
/// with fewer samples than its extent needs. Else one command selects the
/// region, from `(x, y)` to the image's last column and row, and one frame
/// carries the pixel buffer.
pub open spec fn image_transfer(
    screen: Screen,
    width: u32,
    height: u32,
    rgb: Seq<u8>,
    x: i32,
    y: i32,
) -> TransferModel {
    if !fits_screen(
        screen.width as int,
        screen.height as int,
        width as nat,
        height as nat,
        x as int,
        y as int,
    ) {
        failed(ChipsError::ImageTooLarge)
    } else if rgb.len() < 3 * width * height {
        failed(ChipsError::ImageFormat)
    } else {
        sent(
            seq![
                simple_command(
                    CODE_IMAGE_REGION,
                    x,
                    y,
                    (x + width - 1) as i32,
                    (y + height - 1) as i32,
                ),
                FrameModel {
                    bytes: lowered(width as nat, height as nat, rgb),
                    delay_ms: IMAGE_DELAY_MS,
                },
            ],
        )
    }
}

/// Drawing points fails exactly when the far points do not fit their
/// window, and then with the bounds error; the near points' frames are due
/// either way.
pub proof fn lemma_pixels_fail_on_bounds(color: u16, points: Seq<(int, int)>)
    ensures
        pixel_transfer(color, points).result is Err <==> !fits_window(far_points(points)),
        pixel_transfer(color, points).result is Err ==> pixel_transfer(color, points).result
            == Err::<(), ChipsError>(ChipsError::BoundsTooLarge),
        pixel_frames(coordinate_bytes(near_points(points), 0, 0), 0, 0, color).is_prefix_of(
            pixel_transfer(color, points).frames,
        ),
{
}

/// An image is too large exactly when, placed at `(x, y)`, it reaches past
/// the screen's right or bottom edge; one that ends on the edge fits. No
/// frame is due for an image that fails.
pub proof fn lemma_image_fails_on_extent(
    screen: Screen,
    width: u32,
    height: u32,
    rgb: Seq<u8>,
    x: i32,
    y: i32,
)
    ensures
        image_transfer(screen, width, height, rgb, x, y).result == Err::<(), ChipsError>(
            ChipsError::ImageTooLarge,
        ) <==> x + width > screen.width || y + height > screen.height,
        image_transfer(screen, width, height, rgb, x, y).result is Err ==> image_transfer(
            screen,
            width,
            height,
            rgb,
            x,
            y,
        ).frames.len() == 0,
        image_transfer(screen, width, height, rgb, x, y).result is Ok ==> image_transfer(
            screen,
            width,
            height,
            rgb,
            x,
            y,
        ).frames.len() == 2,
{
}

/// Drawing no points goes through and sends nothing.
pub proof fn lemma_no_points_no_frames(color: u16)
    ensures
        pixel_transfer(color, Seq::<(int, int)>::empty()) == sent(Seq::<FrameModel>::empty()),
{
    reveal(Seq::filter);
    let none = Seq::<(int, int)>::empty();
    assert(near_points(none) =~= none);
    assert(far_points(none) =~= none);
    assert(coordinate_bytes(none, 0, 0) =~= Seq::<u8>::empty());
    assert(pixel_frames(Seq::<u8>::empty(), 0, 0, color) =~= Seq::<FrameModel>::empty());
    assert(pixel_transfer(color, none).frames =~= Seq::<FrameModel>::empty());
}

/// What a device is: its screen and whether it is connected.
pub ghost struct DeviceModel {
    pub screen: Screen,
    pub connected: bool,
}

/// The session with one peripheral.
#[derive(Debug)]
pub struct ChipsDevice {
    screen: Screen,
    connected: bool,
}

impl View for ChipsDevice {
    type V = DeviceModel;

    closed spec fn view(&self) -> DeviceModel {
        DeviceModel { screen: self.screen, connected: self.connected }
    }
}

impl ChipsDevice {
    /// A disconnected device with the given screen.
    pub fn new(screen: Screen) -> (device: Self)
        ensures
            device@ == (DeviceModel { screen, connected: false }),
    {
        ChipsDevice { screen, connected: false }
    }

    pub fn screen(&self) -> (screen: Screen)
        ensures
            screen == self@.screen,
    {
        self.screen
    }

    pub fn is_connected(&self) -> (connected: bool)
        ensures
            connected == self@.connected,
    {
        self.connected
    }

    /// Marks the device connected, once its transport is open.
    pub fn connect(&mut self)
        ensures
            final(self)@ == (DeviceModel { screen: old(self)@.screen, connected: true }),
    {
        self.connected = true;
    }

    fn absent() -> (transfer: Transfer)
        ensures
            transfer@ == failed(ChipsError::PeripheralAbsent),
    {
        let frames: Vec<Frame> = Vec::new();
        assert(frame_models(frames@) =~= Seq::<FrameModel>::empty());
        Transfer { frames, result: Err(ChipsError::PeripheralAbsent) }
    }

    fn adjust_frames(&self, is_mirror: bool, is_landscape: bool, is_invert: bool) -> (frames: Vec<
        Frame,
    >)
        ensures
            frame_models(frames@) == screen_frames(
                self@.screen,
                is_mirror,
                is_landscape,
                is_invert,
            ),
    {
        let mirror = if is_mirror {
            send_command_122(1)
        } else {
            send_command_122(0)
        };
        let mut landscape_invert: u8 = 3;
        if is_landscape && !is_invert {
            landscape_invert = 2;
        } else if !is_landscape && is_invert {
            landscape_invert = 1;
        } else if !is_landscape && !is_invert {
            landscape_invert = 0;
        }
        let orientation = send_command_121(landscape_invert, self.screen.width, self.screen.height);
        let mut frames: Vec<Frame> = Vec::new();
        frames.push(mirror);
        frames.push(orientation);
        assert(frame_models(frames@) =~= screen_frames(
            self@.screen,
            is_mirror,
            is_landscape,
            is_invert,
        ));
        frames
    }

    /// Powers the peripheral on and sets up its screen: landscape, inverted,
    /// not mirrored.
    pub fn startup(&self) -> (transfer: Transfer)
        ensures
            transfer@ == on_device(self@.connected, sent(startup_frames(self@.screen))),
    {
        if !self.connected {
            return Self::absent();
        }
        let mut frames: Vec<Frame> = Vec::new();
        frames.push(send_command_code(CODE_POWER_ON));
        let mut screen = self.adjust_frames(false, true, true);
        proof {
            lemma_frame_models_add(frames@, screen@);
            assert(frame_models(frames@) =~= seq![simple_command(CODE_POWER_ON, 0, 0, 0, 0)]);
        }
        frames.append(&mut screen);
        Transfer { frames, result: Ok(()) }
    }

    /// Powers the peripheral off and ends the session.
    pub fn shutdown(&mut self) -> (transfer: Transfer)
        ensures
            transfer@ == on_device(
                old(self)@.connected,
                sent(seq![simple_command(CODE_POWER_OFF, 0, 0, 0, 0)]),
            ),
            final(self)@ == (DeviceModel { screen: old(self)@.screen, connected: false }),
    {
        if !self.connected {
            return Self::absent();
        }
        let mut frames: Vec<Frame> = Vec::new();
        frames.push(send_command_code(CODE_POWER_OFF));
        assert(frame_models(frames@) =~= seq![simple_command(CODE_POWER_OFF, 0, 0, 0, 0)]);
        self.connected = false;
        Transfer { frames, result: Ok(()) }
    }

    /// Restarts the peripheral and ends the session.
    pub fn restart(&mut self) -> (transfer: Transfer)
        ensures
            transfer@ == on_device(old(self)@.connected, sent(seq![restart_frame()])),
            final(self)@ == (DeviceModel { screen: old(self)@.screen, connected: false }),
    {
        if !self.connected {
            return Self::absent();
        }
        let mut frame = send_command_code(CODE_RESTART);
        frame.delay_ms = FRAME_DELAY_MS + RESTART_DELAY_MS;
        let mut frames: Vec<Frame> = Vec::new();
        frames.push(frame);
        assert(frame_models(frames@) =~= seq![restart_frame()]);
        self.connected = false;
        Transfer { frames, result: Ok(()) }
    }

    /// Sets the brightness.
    pub fn set_brightness(&self, value: i32) -> (transfer: Transfer)
        ensures
            transfer@ == on_device(
                self@.connected,
                sent(seq![simple_command(CODE_BRIGHTNESS, value, 0, 0, 0)]),
            ),
    {
        if !self.connected {
            return Self::absent();
        }
        let mut frames: Vec<Frame> = Vec::new();
        frames.push(send_command_simple(CODE_BRIGHTNESS, value, 0, 0, 0));
        assert(frame_models(frames@) =~= seq![simple_command(CODE_BRIGHTNESS, value, 0, 0, 0)]);
        Transfer { frames, result: Ok(()) }
    }

    /// Sets mirroring and orientation, and tells the peripheral the screen's
    /// extent.
    pub fn adjust_screen(&self, is_mirror: bool, is_landscape: bool, is_invert: bool) -> (transfer:
        Transfer)
        ensures
            transfer@ == on_device(
                self@.connected,
                sent(screen_frames(self@.screen, is_mirror, is_landscape, is_invert)),
            ),
    {
        if !self.connected {
            return Self::absent();
        }
        let frames = self.adjust_frames(is_mirror, is_landscape, is_invert);
        Transfer { frames, result: Ok(()) }
    }

    /// Fills a rectangle with a colour.
    pub fn draw_rectangle(
        &self,
        left: i32,
        top: i32,
        right: i32,
        bottom: i32,
        color: Color,
    ) -> (transfer: Transfer)
        ensures
            transfer@ == on_device(
                self@.connected,
                sent(seq![rectangle_frame(left, top, right, bottom, color.serial())]),
            ),
    {
        if !self.connected {
            return Self::absent();
        }
        let color_16 = color.as_serial();
        let ecc = make_hint_byte(color_16, bottom);
        let mut frames: Vec<Frame> = Vec::new();
        frames.push(kd_draw(CODE_RECTANGLE, left, top, right, bottom, color_16, ecc));
        assert(frame_models(frames@) =~= seq![
            rectangle_frame(left, top, right, bottom, color.serial()),
        ]);
        Transfer { frames, result: Ok(()) }
    }

    /// Draws the first `count` samples of `data` as a bar graph from `x`
    /// on, on the baseline `y`.
    pub fn draw_bar_graph(
        &self,
        x: i32,
        y: i32,
        count: usize,
        color_bg: Color,
        color_fg: Color,
        data: &[u8],
    ) -> (transfer: Transfer)
        requires
            count <= data@.len(),
        ensures
            transfer@ == on_device(
                self@.connected,
                sent(
                    bar_frames(data@, count as nat, x, y, color_bg.serial(), color_fg.serial()),
                ),
            ),
    {
        if !self.connected {
            return Self::absent();
        }
        let frames = bar_graph_chunks(x, y, count, color_bg, color_fg, data);
        Transfer { frames, result: Ok(()) }
    }

    /// Draws the first `count` samples of `data` as a line graph from `x`
    /// on, on the baseline `y`.
    pub fn draw_line_graph(
        &self,
        x: i32,
        y: i32,
        count: usize,
        color_bg: Color,
        color_fg: Color,
        data: &[u8],
    ) -> (transfer: Transfer)
        requires
            count <= data@.len(),
        ensures
            transfer@ == on_device(
                self@.connected,
                sent(
                    line_frames(data@, count as nat, x, y, color_bg.serial(), color_fg.serial()),
                ),
            ),
    {
        if !self.connected {
            return Self::absent();
        }
        let frames = line_graph_chunks(x, y, count, color_bg, color_fg, data);
        Transfer { frames, result: Ok(()) }
    }

    /// Draws a set of points in one colour.
    pub fn draw_pixels(&self, color: Color, points: &[Point]) -> (transfer: Transfer)
        ensures
            transfer@ == on_device(
                self@.connected,
                pixel_transfer(color.serial(), point_models(points@)),
            ),
    {
        if !self.connected {
            return Self::absent();
        }
        let (near, far) = split_points(points);
        let mut frames = draw_pixels_raw(0, 0, color, near.as_slice());
        match encode_far(far.as_slice()) {
            Err(error) => Transfer { frames, result: Err(error) },
            Ok(pixels) => {
                let mut more = draw_pixels_raw(
                    pixels.offset_x,
                    pixels.offset_y,
                    color,
                    pixels.coordinates.as_slice(),
                );
                proof {
                    lemma_frame_models_add(frames@, more@);
                }
                frames.append(&mut more);
                Transfer { frames, result: Ok(()) }
            },
        }
    }

    fn fits(&self, width: u32, height: u32, x: i32, y: i32) -> (fits: bool)
        ensures
            fits == fits_screen(
                self@.screen.width as int,
                self@.screen.height as int,
                width as nat,
                height as nat,
                x as int,
                y as int,
            ),
    {
        x as i64 + width as i64 <= self.screen.width as i64 && y as i64 + height as i64
            <= self.screen.height as i64
    }

    /// Draws an image given as 8-bit RGB samples, row after row, with its
    /// top left corner at `(x, y)`.
    pub fn draw_raster(&self, width: u32, height: u32, rgb: &[u8], x: i32, y: i32) -> (transfer:
        Transfer)
        ensures
            transfer@ == on_device(
                self@.connected,
                image_transfer(self@.screen, width, height, rgb@, x, y),
            ),
    {
        if !self.connected {
            return Self::absent();
        }
        let mut frames: Vec<Frame> = Vec::new();
        assert(frame_models(frames@) =~= Seq::<FrameModel>::empty());
        if !self.fits(width, height, x, y) {
            return Transfer { frames, result: Err(ChipsError::ImageTooLarge) };
        }
        assert(width as u128 * height as u128 <= 0x1_0000_0000_0000_0000) by (nonlinear_arith)
            requires
                width <= 0xFFFF_FFFF,
                height <= 0xFFFF_FFFF,
        ;
        let needed: u128 = 3 * (width as u128 * height as u128);
        assert(needed == 3 * width * height) by (nonlinear_arith)
            requires
                needed == 3 * (width * height),
        ;
        if (rgb.len() as u128) < needed {
            return Transfer { frames, result: Err(ChipsError::ImageFormat) };
        }
        let right: i32 = #[verifier::truncate] ((x as i64 + width as i64 - 1) as i32);
        let bottom: i32 = #[verifier::truncate] ((y as i64 + height as i64 - 1) as i32);
        frames.push(send_command_simple(CODE_IMAGE_REGION, x, y, right, bottom));
        let buf = image_to_buffer(width, height, rgb);
        frames.push(Frame { bytes: buf, delay_ms: IMAGE_DELAY_MS });
        assert(frame_models(frames@) =~= image_transfer(
            self@.screen,
            width,
            height,
            rgb@,
            x,
            y,
        ).frames);
        Transfer { frames, result: Ok(()) }
    }

    /// Draws a decoded image with its top left corner at `(x, y)`. The
    /// image's extent is checked against the screen before the image is
    /// converted to RGB.
    pub fn draw_image(&self, image: &DynamicImage, x: i32, y: i32) -> (transfer: Transfer)
        ensures
            transfer@ == on_device(
                self@.connected,
                image_transfer(
                    self@.screen,
                    image_width(*image),
                    image_height(*image),
                    image_rgb8(*image),
                    x,
                    y,
                ),
            ),
    {
        if !self.connected {
            return Self::absent();
        }
        let width = dynamic_width(image);
        let height = dynamic_height(image);
        if !self.fits(width, height, x, y) {
            let frames: Vec<Frame> = Vec::new();
            assert(frame_models(frames@) =~= Seq::<FrameModel>::empty());
            return Transfer { frames, result: Err(ChipsError::ImageTooLarge) };
        }
        let rgb = dynamic_rgb8(image);
        self.draw_raster(width, height, rgb.as_slice(), x, y)
    }
}

} // verus!
