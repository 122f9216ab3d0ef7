//! Frame codec: the two header shapes and the hint byte.
//!
//! The compact header packs four ten-bit fields and a command code into six
//! bytes; the extended header spells four fields out as big-endian 16-bit
//! values and adds a colour, a hint byte and the command code.

use vstd::prelude::*;
use crate::errors::ChipsError;
use crate::frame::{Frame, FrameModel, FRAME_DELAY_MS};

verus! {

/// Length of the compact header, in bytes.
pub const COMPACT_HEADER_LEN: usize = 6;

/// Length of the extended header, in bytes.
pub const EXTENDED_HEADER_LEN: usize = 12;

/// One more than the largest value that a compact header field holds.
pub const COMPACT_FIELD_LIMIT: i32 = 1024;

/// Command code that restarts the peripheral.
pub const CODE_RESTART: u8 = 101;

/// Command code that powers the peripheral off.
pub const CODE_POWER_OFF: u8 = 108;

/// Command code that powers the peripheral on.
pub const CODE_POWER_ON: u8 = 109;

/// Command code that sets the brightness.
pub const CODE_BRIGHTNESS: u8 = 110;

/// Command code that sets the orientation and the screen extent.
pub const CODE_ORIENTATION: u8 = 121;

/// Command code that switches mirroring on or off.
pub const CODE_MIRROR: u8 = 122;

/// Command code that fills a rectangle.
pub const CODE_RECTANGLE: u8 = 136;

/// Command code of a bar-graph frame.
pub const CODE_BAR_GRAPH: u8 = 137;

/// Command code of a line-graph frame.
pub const CODE_LINE_GRAPH: u8 = 144;

/// Command code of a pixel-list frame.
pub const CODE_PIXELS: u8 = 195;

/// Command code that selects the region that an image's pixels fill.
pub const CODE_IMAGE_REGION: u8 = 197;

/// First byte of a compact header: bits 2 to 9 of left.
pub open spec fn compact_byte0(left: i32) -> u8 {
    (left >> 2) as u8
}

/// Second byte: bits 0 and 1 of left, then bits 4 to 9 of top.
pub open spec fn compact_byte1(left: i32, top: i32) -> u8 {
    (((left & 3) << 6) | (top >> 4)) as u8
}

/// Third byte: bits 0 to 3 of top, then bits 6 to 9 of right.
pub open spec fn compact_byte2(top: i32, right: i32) -> u8 {
    (((top & 15) << 4) | (right >> 6)) as u8
}

/// Fourth byte: bits 0 to 5 of right, then bits 8 and 9 of bottom.
pub open spec fn compact_byte3(right: i32, bottom: i32) -> u8 {
    (((right & 63) << 2) | (bottom >> 8)) as u8
}

/// Fifth byte: bits 0 to 7 of bottom.
pub open spec fn compact_byte4(bottom: i32) -> u8 {
    (bottom & 255) as u8
}

/// The six bytes of a compact header. Values wider than a field are cut to
/// what the bit operations keep.
pub open spec fn compact_header(code: u8, left: i32, top: i32, right: i32, bottom: i32) -> Seq<
    u8,
> {
    seq![
        compact_byte0(left),
        compact_byte1(left, top),
        compact_byte2(top, right),
        compact_byte3(right, bottom),
        compact_byte4(bottom),
        code,
    ]
}

/// Whether a value fits a compact header field.
pub open spec fn fits_compact_field(value: i32) -> bool {
    0 <= value < COMPACT_FIELD_LIMIT
}

/// The left field from the first two bytes.
pub open spec fn unpack_left(b0: u8, b1: u8) -> i32 {
    ((b0 as i32) << 2) | ((b1 as i32) >> 6)
}

/// The top field from the second and third byte.
pub open spec fn unpack_top(b1: u8, b2: u8) -> i32 {
    (((b1 as i32) & 63) << 4) | ((b2 as i32) >> 4)
}

/// The right field from the third and fourth byte.
pub open spec fn unpack_right(b2: u8, b3: u8) -> i32 {
    (((b2 as i32) & 15) << 6) | ((b3 as i32) >> 2)
}

/// The bottom field from the fourth and fifth byte.
pub open spec fn unpack_bottom(b3: u8, b4: u8) -> i32 {
    (((b3 as i32) & 3) << 8) | (b4 as i32)
}

/// The fields of a compact header.
#[derive(Debug, Clone, Copy, PartialEq, Eq, Structural)]
pub struct CompactFields {
    pub code: u8,
    pub left: i32,
    pub top: i32,
    pub right: i32,
    pub bottom: i32,
}

/// The fields that the first six bytes of `bytes` hold.
pub open spec fn compact_fields(bytes: Seq<u8>) -> CompactFields
    recommends
        bytes.len() >= 6,
{
    CompactFields {
        code: bytes[5],
        left: unpack_left(bytes[0], bytes[1]),
        top: unpack_top(bytes[1], bytes[2]),
        right: unpack_right(bytes[2], bytes[3]),
        bottom: unpack_bottom(bytes[3], bytes[4]),
    }
}

proof fn lemma_unpack_bytes(left: i32, top: i32, right: i32, bottom: i32)
    by (bit_vector)
    requires
        0 <= left < 1024,
        0 <= top < 1024,
        0 <= right < 1024,
        0 <= bottom < 1024,
    ensures
        unpack_left(compact_byte0(left), compact_byte1(left, top)) == left,
        unpack_top(compact_byte1(left, top), compact_byte2(top, right)) == top,
        unpack_right(compact_byte2(top, right), compact_byte3(right, bottom)) == right,
        unpack_bottom(compact_byte3(right, bottom), compact_byte4(bottom)) == bottom,
{
}

/// Packing four fields that fit and unpacking the header again gives the
/// same command code and the same four fields.
pub proof fn lemma_compact_round_trip(code: u8, left: i32, top: i32, right: i32, bottom: i32)
    requires
        fits_compact_field(left),
        fits_compact_field(top),
        fits_compact_field(right),
        fits_compact_field(bottom),
    ensures
        compact_fields(compact_header(code, left, top, right, bottom)) == (CompactFields {
            code,
            left,
            top,
            right,
            bottom,
        }),
{
    lemma_unpack_bytes(left, top, right, bottom);
}

/// Reads the fields of a compact header back from the start of `bytes`.
pub fn decode_compact_header(bytes: &[u8]) -> (fields: Option<CompactFields>)
    ensures
        bytes@.len() < 6 ==> fields is None,
        bytes@.len() >= 6 ==> fields == Some(compact_fields(bytes@)),
{
    if bytes.len() < COMPACT_HEADER_LEN {
        return None;
    }
    let b0: i32 = bytes[0] as i32;
    let b1: i32 = bytes[1] as i32;
    let b2: i32 = bytes[2] as i32;
    let b3: i32 = bytes[3] as i32;
    let b4: i32 = bytes[4] as i32;
    Some(
        CompactFields {
            code: bytes[5],
            left: (b0 << 2) | (b1 >> 6),
            top: ((b1 & 63) << 4) | (b2 >> 4),
            right: ((b2 & 15) << 6) | (b3 >> 2),
            bottom: ((b3 & 3) << 8) | b4,
        },
    )
}

/// Writes a compact header over the first six bytes of `data`, which must be
/// at least that long.
pub fn write_compact_header(
    data: &mut Vec<u8>,
    code: u8,
    left: i32,
    top: i32,
    right: i32,
    bottom: i32,
) -> (result: Result<(), ChipsError>)
    ensures
        old(data)@.len() < 6 ==> result == Err::<(), ChipsError>(
            ChipsError::InvalidLength { received: old(data)@.len() as usize, expected: 6 },
        ) && final(data)@ == old(data)@,
        old(data)@.len() >= 6 ==> result is Ok && final(data)@ == compact_header(
            code,
            left,
            top,
            right,
            bottom,
        ) + old(data)@.subrange(6, old(data)@.len() as int),
{
    if data.len() < COMPACT_HEADER_LEN {
        return Err(
            ChipsError::InvalidLength { received: data.len(), expected: COMPACT_HEADER_LEN },
        );
    }
    data[0] = #[verifier::truncate] ((left >> 2) as u8);
    data[1] = #[verifier::truncate] ((((left & 3) << 6) | (top >> 4)) as u8);
    data[2] = #[verifier::truncate] ((((top & 15) << 4) | (right >> 6)) as u8);
    data[3] = #[verifier::truncate] ((((right & 63) << 2) | (bottom >> 8)) as u8);
    data[4] = #[verifier::truncate] ((bottom & 255) as u8);
    data[5] = code;
    assert(data@ =~= compact_header(code, left, top, right, bottom) + old(data)@.subrange(
        6,
        old(data)@.len() as int,
    ));
    Ok(())
}

/// Bits 8 to 15 of a field: the first of its two bytes in an extended header.
pub open spec fn high_byte(value: i32) -> u8 {
    (value >> 8) as u8
}

/// Bits 0 to 7 of a field: the second of its two bytes.
pub open spec fn low_byte(value: i32) -> u8 {
    (value & 255) as u8
}

/// The twelve bytes of an extended header: four fields, each high byte first,
/// the colour high byte first, the hint byte and the command code.
pub open spec fn extended_header(
    code: u8,
    left: i32,
    top: i32,
    right: i32,
    bottom: i32,
    color: u16,
    hint: u8,
) -> Seq<u8> {
    seq![
        high_byte(left),
        low_byte(left),
        high_byte(top),
        low_byte(top),
        high_byte(right),
        low_byte(right),
        high_byte(bottom),
        low_byte(bottom),
        (color >> 8) as u8,
        (color & 255) as u8,
        hint,
        code,
    ]
}

/// The hint byte that goes with a colour: its low half comes from the
/// colour, its high half from `other`, which is the bottom field where one
/// colour is sent.
pub open spec fn hint_byte(color: u16, other: i32) -> u8 {
    (((((color as i32) >> 2) + 2) as i32 & 0x0F) | (((other >> 3) + 3) as i32 & 0xF0)) as u8
}

/// The hint byte that sums up a foreground and a background colour.
pub open spec fn hint_byte_dual(fg: u16, bg: u16) -> u8 {
    hint_byte(fg, bg as i32)
}

/// Whether a value fits one 16-bit field of an extended header.
pub open spec fn fits_extended_field(value: i32) -> bool {
    0 <= value < 0x1_0000
}

/// The value of a 16-bit field from its two bytes.
pub open spec fn unpack_field(high: u8, low: u8) -> i32 {
    ((high as i32) << 8) | (low as i32)
}

/// The colour from its two bytes.
pub open spec fn unpack_color(high: u8, low: u8) -> u16 {
    ((high as u16) << 8) | (low as u16)
}

/// A field that fits its 16 bits is read back unchanged from its two bytes.
pub proof fn lemma_field_round_trip(value: i32)
    by (bit_vector)
    requires
        0 <= value < 0x1_0000,
    ensures
        unpack_field(high_byte(value), low_byte(value)) == value,
{
}

/// Every 16-bit colour is read back unchanged from its two bytes.
pub proof fn lemma_color_round_trip(color: u16)
    by (bit_vector)
    ensures
        unpack_color((color >> 8) as u8, (color & 255) as u8) == color,
{
}

/// An extended header gives back its command code, its hint byte and its
/// colour exactly, and each field that fits 16 bits.
pub proof fn lemma_extended_round_trip(
    code: u8,
    left: i32,
    top: i32,
    right: i32,
    bottom: i32,
    color: u16,
    hint: u8,
)
    ensures
        ({
            let h = extended_header(code, left, top, right, bottom, color, hint);
            &&& h.len() == 12
            &&& h[11] == code
            &&& h[10] == hint
            &&& unpack_color(h[8], h[9]) == color
            &&& fits_extended_field(left) ==> unpack_field(h[0], h[1]) == left
            &&& fits_extended_field(top) ==> unpack_field(h[2], h[3]) == top
            &&& fits_extended_field(right) ==> unpack_field(h[4], h[5]) == right
            &&& fits_extended_field(bottom) ==> unpack_field(h[6], h[7]) == bottom
        }),
{
    lemma_color_round_trip(color);
    if fits_extended_field(left) {
        lemma_field_round_trip(left);
    }
    if fits_extended_field(top) {
        lemma_field_round_trip(top);
    }
    if fits_extended_field(right) {
        lemma_field_round_trip(right);
    }
    if fits_extended_field(bottom) {
        lemma_field_round_trip(bottom);
    }
}

/// Computes the hint byte for a colour and the value that fills its high half.
pub fn make_hint_byte(color: u16, other: i32) -> (hint: u8)
    ensures
        hint == hint_byte(color, other),
{
    let c: i32 = color as i32;
    assert(0 <= (c >> 2) < 0x4000) by (bit_vector)
        requires
            0 <= c < 0x1_0000,
    ;
    assert(-0x1000_0000 <= (other >> 3) < 0x1000_0000) by (bit_vector);
    let low: i32 = ((c >> 2) + 2) & 0x0F;
    let high: i32 = ((other >> 3) + 3) & 0xF0;
    #[verifier::truncate]
    ((low | high) as u8)
}

/// Writes an extended header over the first twelve bytes of `data`.
pub fn write_extended_header(
    data: &mut Vec<u8>,
    code: u8,
    left: i32,
    top: i32,
    right: i32,
    bottom: i32,
    color: u16,
    hint: u8,
)
    requires
        old(data)@.len() >= 12,
    ensures
        final(data)@ == extended_header(code, left, top, right, bottom, color, hint) + old(
            data,
        )@.subrange(12, old(data)@.len() as int),
{
    data[0] = #[verifier::truncate] ((left >> 8) as u8);
    data[1] = #[verifier::truncate] ((left & 255) as u8);
    data[2] = #[verifier::truncate] ((top >> 8) as u8);
    data[3] = #[verifier::truncate] ((top & 255) as u8);
    data[4] = #[verifier::truncate] ((right >> 8) as u8);
    data[5] = #[verifier::truncate] ((right & 255) as u8);
    data[6] = #[verifier::truncate] ((bottom >> 8) as u8);
    data[7] = #[verifier::truncate] ((bottom & 255) as u8);
    data[8] = #[verifier::truncate] ((color >> 8) as u8);
    data[9] = #[verifier::truncate] ((color & 255) as u8);
    data[10] = hint;
    data[11] = code;
    assert(data@ =~= extended_header(code, left, top, right, bottom, color, hint) + old(
        data,
    )@.subrange(12, old(data)@.len() as int));
}

/// A run of `n` zero bytes.
pub open spec fn zeros(n: nat) -> Seq<u8> {
    Seq::new(n, |i: int| 0u8)
}

/// A buffer of `n` zero bytes.
pub fn zeroed(n: usize) -> (buf: Vec<u8>)
    ensures
        buf@ == zeros(n as nat),
{
    let mut buf: Vec<u8> = Vec::new();
    let mut i: usize = 0;
    while i < n
        invariant
            i <= n,
            buf@ == zeros(i as nat),
        decreases n - i,
    {
        buf.push(0u8);
        i = i + 1;
        assert(buf@ =~= zeros(i as nat));
    }
    buf
}

/// Stamps a compact header on `data` and makes it a frame with the given
/// pause. A buffer too short for the header is turned down.
pub fn send_command_delayed(
    command_code: u8,
    left: i32,
    top: i32,
    right: i32,
    bottom: i32,
    data: Vec<u8>,
    delay: u64,
) -> (result: Result<Frame, ChipsError>)
    ensures
        data@.len() < 6 ==> result == Err::<Frame, ChipsError>(
            ChipsError::InvalidLength { received: data@.len() as usize, expected: 6 },
        ),
        data@.len() >= 6 ==> result is Ok && result->Ok_0@ == (FrameModel {
            bytes: compact_header(command_code, left, top, right, bottom) + data@.subrange(
                6,
                data@.len() as int,
            ),
            delay_ms: delay,
        }),
{
    let mut bytes = data;
    match write_compact_header(&mut bytes, command_code, left, top, right, bottom) {
        Ok(()) => Ok(Frame { bytes, delay_ms: delay }),
        Err(e) => Err(e),
    }
}

/// Stamps a compact header on `data` and makes it a frame with the usual
/// pause after a command.
pub fn send_command(
    command_code: u8,
    left: i32,
    top: i32,
    right: i32,
    bottom: i32,
    data: Vec<u8>,
) -> (result: Result<Frame, ChipsError>)
    ensures
        data@.len() < 6 ==> result == Err::<Frame, ChipsError>(
            ChipsError::InvalidLength { received: data@.len() as usize, expected: 6 },
        ),
        data@.len() >= 6 ==> result is Ok && result->Ok_0@ == (FrameModel {
            bytes: compact_header(command_code, left, top, right, bottom) + data@.subrange(
                6,
                data@.len() as int,
            ),
            delay_ms: FRAME_DELAY_MS,
        }),
{
    send_command_delayed(command_code, left, top, right, bottom, data, FRAME_DELAY_MS)
}

/// What a bare compact-header command is: six bytes and the usual pause.
pub open spec fn simple_command(
    command_code: u8,
    left: i32,
    top: i32,
    right: i32,
    bottom: i32,
) -> FrameModel {
    FrameModel {
        bytes: compact_header(command_code, left, top, right, bottom),
        delay_ms: FRAME_DELAY_MS,
    }
}

/// A frame that is a compact header and nothing else.
pub fn send_command_simple(
    command_code: u8,
    left: i32,
    top: i32,
    right: i32,
    bottom: i32,
) -> (frame: Frame)
    ensures
        frame@ == simple_command(command_code, left, top, right, bottom),
{
    let mut bytes = zeroed(COMPACT_HEADER_LEN);
    let written = write_compact_header(&mut bytes, command_code, left, top, right, bottom);
    assert(bytes@ =~= compact_header(command_code, left, top, right, bottom));
    Frame { bytes, delay_ms: FRAME_DELAY_MS }
}

/// A frame that carries a command code and four zero fields.
pub fn send_command_code(command_code: u8) -> (frame: Frame)
    ensures
        frame@ == simple_command(command_code, 0, 0, 0, 0),
{
    send_command_simple(command_code, 0, 0, 0, 0)
}


/// Length of the two mode commands, header included.
pub const MODE_COMMAND_LEN: usize = 16;

/// The orientation command: a compact header with zero fields, the mode
/// raised by 100, and the screen's width and height, each high byte first.
pub open spec fn orientation_command(landscape_invert: u8, width: i32, height: i32) -> FrameModel {
    FrameModel {
        bytes: compact_header(CODE_ORIENTATION, 0, 0, 0, 0) + seq![
            (landscape_invert + 100) as u8,
            high_byte(width),
            low_byte(width),
            high_byte(height),
            low_byte(height),
        ] + zeros(5),
        delay_ms: FRAME_DELAY_MS,
    }
}

/// The mirror command: a compact header with zero fields and the mode.
pub open spec fn mirror_command(mode_num: u8) -> FrameModel {
    FrameModel {
        bytes: compact_header(CODE_MIRROR, 0, 0, 0, 0) + seq![mode_num] + zeros(9),
        delay_ms: FRAME_DELAY_MS,
    }
}

/// The frame that sets orientation mode and screen extent.
pub fn send_command_121(landscape_invert: u8, width: i32, height: i32) -> (frame: Frame)
    requires
        landscape_invert <= 155,
    ensures
        frame@ == orientation_command(landscape_invert, width, height),
{
    let mut bytes = zeroed(MODE_COMMAND_LEN);
    bytes[6] = landscape_invert + 100;
    bytes[7] = #[verifier::truncate] ((width >> 8) as u8);
    bytes[8] = #[verifier::truncate] ((width & 255) as u8);
    bytes[9] = #[verifier::truncate] ((height >> 8) as u8);
    bytes[10] = #[verifier::truncate] ((height & 255) as u8);
    let written = write_compact_header(&mut bytes, CODE_ORIENTATION, 0, 0, 0, 0);
    assert(bytes@ =~= orientation_command(landscape_invert, width, height).bytes);
    Frame { bytes, delay_ms: FRAME_DELAY_MS }
}

/// The frame that sets the mirror mode.
pub fn send_command_122(mode_num: u8) -> (frame: Frame)
    ensures
        frame@ == mirror_command(mode_num),
{
    let mut bytes = zeroed(MODE_COMMAND_LEN);
    bytes[6] = mode_num;
    let written = write_compact_header(&mut bytes, CODE_MIRROR, 0, 0, 0, 0);
    assert(bytes@ =~= mirror_command(mode_num).bytes);
    Frame { bytes, delay_ms: FRAME_DELAY_MS }
}

/// Stamps an extended header on `data` and makes it a frame with the usual
/// pause.
pub fn kd_draw_buf(
    command_code: u8,
    left: i32,
    top: i32,
    right: i32,
    bottom: i32,
    color: u16,
    ecc: u8,
    data: Vec<u8>,
) -> (frame: Frame)
    requires
        data@.len() >= 12,
    ensures
        frame@ == (FrameModel {
            bytes: extended_header(command_code, left, top, right, bottom, color, ecc)
                + data@.subrange(12, data@.len() as int),
            delay_ms: FRAME_DELAY_MS,
        }),
{
    let mut bytes = data;
    write_extended_header(&mut bytes, command_code, left, top, right, bottom, color, ecc);
    Frame { bytes, delay_ms: FRAME_DELAY_MS }
}

/// A frame that is an extended header and nothing else.
pub fn kd_draw(
    command_code: u8,
    left: i32,
    top: i32,
    right: i32,
    bottom: i32,
    color: u16,
    ecc: u8,
) -> (frame: Frame)
    ensures
        frame@ == (FrameModel {
            bytes: extended_header(command_code, left, top, right, bottom, color, ecc),
            delay_ms: FRAME_DELAY_MS,
        }),
{
    let data = zeroed(EXTENDED_HEADER_LEN);
    let frame = kd_draw_buf(command_code, left, top, right, bottom, color, ecc, data);
    assert(frame@.bytes =~= extended_header(command_code, left, top, right, bottom, color, ecc));
    frame
}

} // verus!
