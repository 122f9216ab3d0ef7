//! Decoded images of the `image` crate.
//!
//! Nothing in this file is proved. Each function here makes one call into
//! the `image` crate, and its contract only gives the call's result a name,
//! so that what is built on it can be stated exactly.

use vstd::prelude::*;
use image::DynamicImage;

verus! {

#[verifier::external_type_specification]
#[verifier::external_body]
pub struct ExDynamicImage(image::DynamicImage);

/// The width that `DynamicImage::width` reports for an image, in pixels.
pub uninterp spec fn image_width(image: DynamicImage) -> u32;

/// The height that `DynamicImage::height` reports for an image, in pixels.
pub uninterp spec fn image_height(image: DynamicImage) -> u32;

/// The samples of the 8-bit RGB copy that `DynamicImage::to_rgb8` makes of
/// an image: the copy's raw buffer, row after row, three samples to a pixel.
pub uninterp spec fn image_rgb8(image: DynamicImage) -> Seq<u8>;

/// Calls `image::DynamicImage::width`. The contract claims only that the
/// result is the image's width, by name.
#[verifier::external_body]
pub(crate) fn dynamic_width(image: &DynamicImage) -> (width: u32)
    ensures
        width == image_width(*image),
{
    image.width()
}

/// Calls `image::DynamicImage::height`. The contract claims only that the
/// result is the image's height, by name.
#[verifier::external_body]
pub(crate) fn dynamic_height(image: &DynamicImage) -> (height: u32)
    ensures
        height == image_height(*image),
{
    image.height()
}

/// Calls `image::DynamicImage::to_rgb8` and hands out the copy's raw
/// buffer. The contract claims only that the bytes are the image's RGB
/// samples, by name: nothing of their number or their values.
#[verifier::external_body]
pub(crate) fn dynamic_rgb8(image: &DynamicImage) -> (samples: Vec<u8>)
    ensures
        samples@ == image_rgb8(*image),
{
    image.to_rgb8().into_raw()
}

} // verus!
