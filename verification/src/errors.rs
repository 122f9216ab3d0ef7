//! The failures that encoding a drawing request can report.

use vstd::prelude::*;

verus! {

/// Why a drawing request was turned down.
#[derive(Debug, Clone, Copy, PartialEq, Eq, Structural)]
pub enum ChipsError {
    /// A header was to be written into a buffer shorter than the header.
    InvalidLength { received: usize, expected: usize },
    /// The image, placed where asked, does not fit on the screen.
    ImageTooLarge,
    /// The image's samples do not cover its stated width and height.
    ImageFormat,
    /// The points that need an offset do not fit in one 256 by 256 window.
    BoundsTooLarge,
    /// The device is not connected, so nothing can be drawn.
    PeripheralAbsent,
}

} // verus!
