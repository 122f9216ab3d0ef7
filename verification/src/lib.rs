//! Command codec and chunked transfer engine for a serial-attached display.
//!
//! Drawing requests are turned into the exact byte frames that the peripheral
//! expects. Nothing here touches a transport: every operation returns the
//! frames to write, in order, each with the pause that follows it.
//!
//! - `color`: 8-bit RGB and its packed 16-bit form.
//! - `header`: the compact and the extended header, the hint byte, the
//!   command codes.
//! - `chunk`: payloads cut into 64-byte frames.
//! - `partition`: point sets split for single-byte coordinates.
//! - `raster`: RGB samples lowered to 16-bit pixels.
//! - `glyph`: coverage bitmaps turned into points.
//! - `device`: the session and the drawing primitives.
//! - `widget_renderer`: drawing by position and extent.
//! - `discovery`: which listed device and port is the peripheral.
//! - `system_info`: host load as integer shares.
//! - `decoded`: the calls into the `image` crate, taken on trust.

pub mod chunk;
pub mod color;
pub mod decoded;
pub mod device;
pub mod discovery;
pub mod errors;
pub mod frame;
pub mod glyph;
pub mod header;
pub mod partition;
pub mod point;
pub mod raster;
pub mod system_info;
pub mod widget_renderer;
