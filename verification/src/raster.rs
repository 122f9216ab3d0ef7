//! Image lowering: 8-bit RGB samples to the peripheral's 16-bit pixels.

use vstd::prelude::*;
use crate::color::to_serial;

verus! {

/// The lowered bytes of the first `pixels` pixels of a run of RGB samples:
/// two bytes for each pixel, its packed colour high byte first.
pub open spec fn lowered_bytes(rgb: Seq<u8>, pixels: nat) -> Seq<u8>
    recommends
        3 * pixels <= rgb.len(),
{
    Seq::new(
        2 * pixels,
        |k: int|
            {
                let at = 3 * (k / 2);
                let serial = to_serial(rgb[at], rgb[at + 1], rgb[at + 2]);
                if k % 2 == 0 {
                    (serial >> 8) as u8
                } else {
                    (serial & 255) as u8
                }
            },
    )
}

/// The pixel buffer of an image of `width` by `height` pixels whose samples
/// are `rgb`, row after row, three to a pixel.
pub open spec fn lowered(width: nat, height: nat, rgb: Seq<u8>) -> Seq<u8>
    recommends
        3 * width * height <= rgb.len(),
{
    lowered_bytes(rgb, width * height)
}

/// Whether an image of this extent, placed with its corner at `(x, y)`,
/// lies within the screen's extent.
pub open spec fn fits_screen(
    screen_width: int,
    screen_height: int,
    width: nat,
    height: nat,
    x: int,
    y: int,
) -> bool {
    x + width <= screen_width && y + height <= screen_height
}

/// Lowers an image to the peripheral's pixel buffer.
pub fn image_to_buffer(width: u32, height: u32, rgb: &[u8]) -> (buf: Vec<u8>)
    requires
        3 * width * height <= rgb@.len(),
    ensures
        buf@ == lowered(width as nat, height as nat, rgb@),
{
    let total = rgb.len();
    assert(width * height <= total) by (nonlinear_arith)
        requires
            3 * width * height <= total,
            width >= 0,
            height >= 0,
    ;
    let pixels: usize = (width as usize) * (height as usize);
    assert(3 * pixels <= total) by (nonlinear_arith)
        requires
            3 * width * height <= total,
            pixels == width * height,
    ;
    let mut buf: Vec<u8> = Vec::new();
    let mut px: usize = 0;
    assert(buf@ =~= lowered_bytes(rgb@, 0));
    while px < pixels
        invariant
            px <= pixels,
            3 * pixels <= total,
            total == rgb@.len(),
            buf@ == lowered_bytes(rgb@, px as nat),
        decreases pixels - px,
    {
        let r: u16 = rgb[3 * px] as u16;
        let g: u16 = rgb[3 * px + 1] as u16;
        let b: u16 = rgb[3 * px + 2] as u16;
        let serial: u16 = ((r & 0xF8) << 8) | ((g & 0xFC) << 3) | (b >> 3);
        buf.push(#[verifier::truncate] ((serial >> 8) as u8));
        buf.push(#[verifier::truncate] ((serial & 255) as u8));
        px = px + 1;
        assert(buf@ =~= lowered_bytes(rgb@, px as nat));
    }
    buf
}

/// The pixel at column `x` of row `y` lies at offset `2 * x + 2 * width * y`
/// of the buffer: its packed colour's high byte there, the low byte next.
pub proof fn lemma_lowered_pixel(width: nat, height: nat, rgb: Seq<u8>, x: nat, y: nat)
    requires
        x < width,
        y < height,
    ensures
        ({
            let at = (2 * x + 2 * width * y) as int;
            let sample = (3 * (y * width + x)) as int;
            let serial = to_serial(rgb[sample], rgb[sample + 1], rgb[sample + 2]);
            &&& at + 1 < lowered(width, height, rgb).len()
            &&& lowered(width, height, rgb).len() == 2 * width * height
            &&& lowered(width, height, rgb)[at] == (serial >> 8) as u8
            &&& lowered(width, height, rgb)[at + 1] == (serial & 255) as u8
        }),
{
    let px = y * width + x;
    assert(2 * x + 2 * width * y == 2 * px) by (nonlinear_arith)
        requires
            px == y * width + x,
    ;
    assert(px < width * height) by (nonlinear_arith)
        requires
            px == y * width + x,
            x < width,
            y < height,
    ;
    assert(2 * (width * height) == 2 * width * height) by (nonlinear_arith);
    assert((2 * px) / 2 == px);
    assert((2 * px + 1) / 2 == px);
}

} // verus!
