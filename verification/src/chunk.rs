//! Chunked transfer engine: payloads of any length cut into 64-byte frames.
//!
//! A frame is a reserved header followed by one contiguous slice of the
//! payload and zero padding. Chunk `i` starts at `i * capacity`; every chunk
//! but the last is full, and the last holds what is left.

use vstd::prelude::*;
use crate::color::Color;
use crate::frame::{
    frame_models, lemma_frame_models_push, Frame, FrameModel, FRAME_DELAY_MS, GRAPH_DELAY_MS,
};
use crate::header::{
    compact_header, extended_header, hint_byte_dual, kd_draw_buf, make_hint_byte, send_command,
    zeroed, zeros, CODE_BAR_GRAPH, CODE_LINE_GRAPH, CODE_PIXELS,
};

verus! {

/// Length of every chunk frame, in bytes.
pub const CHUNK_SIZE: usize = 64;

/// Bytes that a pixel-list frame reserves: a compact header and a colour.
pub const PIXEL_RESERVED: usize = 8;

/// Coordinate bytes that one pixel-list frame carries.
pub const PIXEL_CAPACITY: usize = 56;

/// Bytes that a graph frame reserves: an extended header.
pub const GRAPH_RESERVED: usize = 12;

/// Samples that one bar-graph frame carries.
pub const BAR_CAPACITY: usize = 52;

/// Samples that one line-graph frame draws. Its frame carries one more, the
/// first sample of the next chunk, so that the line joins up.
pub const LINE_CAPACITY: usize = 51;

/// Bit set in the left field of the first frame of a line graph.
pub const SERIES_START: i32 = 32768;

/// Number of chunks that `n` payload bytes take at `capacity` bytes each:
/// `n / capacity`, rounded up.
pub open spec fn chunk_count(n: nat, capacity: nat) -> nat
    recommends
        capacity > 0,
{
    ((n + capacity - 1) / (capacity as int)) as nat
}

/// Where chunk `i` starts in the payload.
pub open spec fn chunk_start(capacity: nat, i: nat) -> nat {
    i * capacity
}

/// Number of payload bytes in chunk `i`: a full chunk, or what is left.
pub open spec fn chunk_len(n: nat, capacity: nat, i: nat) -> nat {
    let start = chunk_start(capacity, i);
    if start >= n {
        0
    } else if n - start < capacity {
        (n - start) as nat
    } else {
        capacity
    }
}

/// The slice of the first `n` payload bytes that chunk `i` carries.
pub open spec fn chunk_data(payload: Seq<u8>, n: nat, capacity: nat, i: nat) -> Seq<u8>
    recommends
        n <= payload.len(),
{
    payload.subrange(
        chunk_start(capacity, i) as int,
        (chunk_start(capacity, i) + chunk_len(n, capacity, i)) as int,
    )
}

/// The slices of the first `k` chunks, one after the other.
pub open spec fn joined_chunks(payload: Seq<u8>, n: nat, capacity: nat, k: nat) -> Seq<u8>
    decreases k,
{
    if k == 0 {
        Seq::<u8>::empty()
    } else {
        joined_chunks(payload, n, capacity, (k - 1) as nat) + chunk_data(
            payload,
            n,
            capacity,
            (k - 1) as nat,
        )
    }
}

/// The chunk count is the least number of chunks that hold `n` bytes.
pub proof fn lemma_chunk_count_is_ceiling(n: nat, capacity: nat)
    requires
        capacity > 0,
    ensures
        chunk_count(n, capacity) * capacity >= n,
        n > 0 ==> (chunk_count(n, capacity) - 1) * capacity < n,
        n == 0 ==> chunk_count(n, capacity) == 0,
{
    let c = capacity as int;
    let m = n + c - 1;
    vstd::arithmetic::div_mod::lemma_fundamental_div_mod(m, c);
    vstd::arithmetic::div_mod::lemma_mod_bound(m, c);
    vstd::arithmetic::div_mod::lemma_div_pos_is_pos(m, c);
    assert(c * (m / c) == (m / c) * c) by (nonlinear_arith);
    assert((m / c - 1) * c == (m / c) * c - c) by (nonlinear_arith);
    if n == 0 {
        vstd::arithmetic::div_mod::lemma_basic_div(m, c);
    }
}

/// Every chunk below the count carries at least one byte and at most
/// `capacity`, and lies inside the payload.
pub proof fn lemma_chunk_bounds(n: nat, capacity: nat, i: nat)
    requires
        capacity > 0,
        i < chunk_count(n, capacity),
    ensures
        0 < chunk_len(n, capacity, i) <= capacity,
        chunk_start(capacity, i) + chunk_len(n, capacity, i) <= n,
        i + 1 < chunk_count(n, capacity) ==> chunk_len(n, capacity, i) == capacity,
        i + 1 == chunk_count(n, capacity) ==> chunk_start(capacity, i) + chunk_len(n, capacity, i)
            == n,
{
    lemma_chunk_count_is_ceiling(n, capacity);
    let c = capacity as int;
    let k = chunk_count(n, capacity) as int;
    assert(i * c <= (k - 1) * c) by (nonlinear_arith)
        requires
            i <= k - 1,
            c > 0,
    ;
    if i + 1 < k {
        assert((i + 1) * c <= (k - 1) * c) by (nonlinear_arith)
            requires
                i + 1 <= k - 1,
                c > 0,
        ;
        assert((i + 1) * c == i * c + c) by (nonlinear_arith);
    } else {
        assert(k * c == i * c + c) by (nonlinear_arith)
            requires
                k == i + 1,
        ;
    }
}

proof fn lemma_joined_prefix(payload: Seq<u8>, n: nat, capacity: nat, k: nat)
    requires
        capacity > 0,
        n <= payload.len(),
        k <= chunk_count(n, capacity),
    ensures
        k < chunk_count(n, capacity) ==> joined_chunks(payload, n, capacity, k)
            == payload.subrange(0, chunk_start(capacity, k) as int),
        k == chunk_count(n, capacity) ==> joined_chunks(payload, n, capacity, k)
            == payload.subrange(0, n as int),
    decreases k,
{
    if k == 0 {
        lemma_chunk_count_is_ceiling(n, capacity);
        assert(joined_chunks(payload, n, capacity, k) =~= payload.subrange(0, 0));
    } else {
        let j = (k - 1) as nat;
        lemma_joined_prefix(payload, n, capacity, j);
        lemma_chunk_bounds(n, capacity, j);
        let start = chunk_start(capacity, j) as int;
        let len = chunk_len(n, capacity, j) as int;
        assert(payload.subrange(0, start) + payload.subrange(start, start + len)
            =~= payload.subrange(0, start + len));
        assert((j + 1) * capacity == j * capacity + capacity) by (nonlinear_arith);
    }
}

/// The chunks' slices, joined in order, are the payload: nothing is lost,
/// repeated or reordered.
pub proof fn lemma_chunks_rebuild_payload(payload: Seq<u8>, n: nat, capacity: nat)
    requires
        capacity > 0,
        n <= payload.len(),
    ensures
        joined_chunks(payload, n, capacity, chunk_count(n, capacity)) == payload.subrange(
            0,
            n as int,
        ),
{
    lemma_joined_prefix(payload, n, capacity, chunk_count(n, capacity));
}

/// Copies `len` bytes of `src`, from `start` on, over `buf` at `at`.
pub fn copy_into(buf: &mut Vec<u8>, at: usize, src: &[u8], start: usize, len: usize)
    requires
        at + len <= old(buf)@.len(),
        start + len <= src@.len(),
    ensures
        final(buf)@ == old(buf)@.subrange(0, at as int) + src@.subrange(
            start as int,
            start + len,
        ) + old(buf)@.subrange(at + len, old(buf)@.len() as int),
{
    let ghost before = buf@;
    let buf_len = buf.len();
    let src_len = src.len();
    let mut j: usize = 0;
    while j < len
        invariant
            j <= len,
            buf_len == before.len(),
            src_len == src@.len(),
            at + len <= buf_len,
            start + len <= src_len,
            buf@.len() == before.len(),
            buf@ == before.subrange(0, at as int) + src@.subrange(start as int, start + j)
                + before.subrange(at + j, before.len() as int),
        decreases len - j,
    {
        let byte = src[start + j];
        buf[at + j] = byte;
        j = j + 1;
        assert(buf@ =~= before.subrange(0, at as int) + src@.subrange(start as int, start + j)
            + before.subrange(at + j, before.len() as int));
    }
}

/// Pixel-list frame `i` for a list of coordinate bytes: a compact header
/// with the offset and the number of points in the chunk, the colour high
/// byte first, the chunk's coordinate bytes, and zeros up to 64 bytes.
pub open spec fn pixel_frame(
    coordinates: Seq<u8>,
    offset_x: i32,
    offset_y: i32,
    color: u16,
    i: nat,
) -> FrameModel {
    let len = chunk_len(coordinates.len(), PIXEL_CAPACITY as nat, i);
    FrameModel {
        bytes: compact_header(CODE_PIXELS, offset_x, offset_y, (len / 2) as i32, 0) + seq![
            (color >> 8) as u8,
            (color & 255) as u8,
        ] + chunk_data(coordinates, coordinates.len(), PIXEL_CAPACITY as nat, i) + zeros(
            (PIXEL_CAPACITY - len) as nat,
        ),
        delay_ms: FRAME_DELAY_MS,
    }
}

/// The first `k` pixel-list frames.
pub open spec fn pixel_frames_upto(
    coordinates: Seq<u8>,
    offset_x: i32,
    offset_y: i32,
    color: u16,
    k: nat,
) -> Seq<FrameModel> {
    Seq::new(k, |i: int| pixel_frame(coordinates, offset_x, offset_y, color, i as nat))
}

/// All the frames of a pixel-list transfer, in order.
pub open spec fn pixel_frames(
    coordinates: Seq<u8>,
    offset_x: i32,
    offset_y: i32,
    color: u16,
) -> Seq<FrameModel> {
    pixel_frames_upto(
        coordinates,
        offset_x,
        offset_y,
        color,
        chunk_count(coordinates.len(), PIXEL_CAPACITY as nat),
    )
}

/// Cuts a list of coordinate bytes into pixel-list frames.
pub fn draw_pixels_raw(offset_x: i32, offset_y: i32, color: Color, coordinates: &[u8]) -> (frames:
    Vec<Frame>)
    ensures
        frame_models(frames@) == pixel_frames(coordinates@, offset_x, offset_y, color.serial()),
{
    let color_16 = color.as_serial();
    let total = coordinates.len();
    let mut frames: Vec<Frame> = Vec::new();
    let mut source_index: usize = 0;
    let ghost mut done: nat = 0;
    assert(frame_models(frames@) =~= pixel_frames_upto(
        coordinates@,
        offset_x,
        offset_y,
        color_16,
        0,
    ));
    while source_index < total
        invariant
            total == coordinates@.len(),
            color_16 == color.serial(),
            source_index <= total,
            source_index < total ==> source_index == done * 56,
            source_index == total ==> done == chunk_count(total as nat, 56),
            frame_models(frames@) == pixel_frames_upto(
                coordinates@,
                offset_x,
                offset_y,
                color_16,
                done,
            ),
        decreases total - source_index,
    {
        let right: usize = if total - source_index < PIXEL_CAPACITY {
            total - source_index
        } else {
            PIXEL_CAPACITY
        };
        assert(right == chunk_len(total as nat, 56, done));
        let mut buf = zeroed(CHUNK_SIZE);
        buf[6] = #[verifier::truncate] ((color_16 >> 8) as u8);
        buf[7] = #[verifier::truncate] ((color_16 & 255) as u8);
        copy_into(&mut buf, PIXEL_RESERVED, coordinates, source_index, right);
        let points = (right / 2) as i32;
        let frame = send_command(CODE_PIXELS, offset_x, offset_y, points, 0, buf).unwrap();
        proof {
            assert(frame@.bytes =~= pixel_frame(
                coordinates@,
                offset_x,
                offset_y,
                color_16,
                done,
            ).bytes);
            lemma_frame_models_push(frames@, frame);
        }
        frames.push(frame);
        source_index = source_index + right;
        proof {
            done = done + 1;
            assert(frame_models(frames@) =~= pixel_frames_upto(
                coordinates@,
                offset_x,
                offset_y,
                color_16,
                done,
            ));
        }
    }
    frames
}

/// The pause after graph frame `i`: the usual one, and after the last frame
/// also the pause that ends the transfer.
pub open spec fn graph_delay(count: nat, capacity: nat, i: nat) -> u64 {
    if i + 1 == chunk_count(count, capacity) {
        (FRAME_DELAY_MS + GRAPH_DELAY_MS) as u64
    } else {
        FRAME_DELAY_MS
    }
}

/// Bar-graph frame `i` for the first `count` samples of `data`: an extended
/// header with the running horizontal position, the baseline, the number of
/// samples in the chunk, the background colour in the bottom field and the
/// foreground colour, then the chunk's samples and zeros up to 64 bytes.
/// A position beyond 32 bits is cut to its low 32 bits, of which the header
/// keeps the low 16.
pub open spec fn bar_frame(
    data: Seq<u8>,
    count: nat,
    x: i32,
    y: i32,
    bg: u16,
    fg: u16,
    i: nat,
) -> FrameModel {
    let start = chunk_start(BAR_CAPACITY as nat, i);
    let len = chunk_len(count, BAR_CAPACITY as nat, i);
    FrameModel {
        bytes: extended_header(
            CODE_BAR_GRAPH,
            (x + start) as i32,
            y,
            len as i32,
            bg as i32,
            fg,
            hint_byte_dual(fg, bg),
        ) + chunk_data(data, count, BAR_CAPACITY as nat, i) + zeros((BAR_CAPACITY - len) as nat),
        delay_ms: graph_delay(count, BAR_CAPACITY as nat, i),
    }
}

/// The first `k` bar-graph frames.
pub open spec fn bar_frames_upto(
    data: Seq<u8>,
    count: nat,
    x: i32,
    y: i32,
    bg: u16,
    fg: u16,
    k: nat,
) -> Seq<FrameModel> {
    Seq::new(k, |i: int| bar_frame(data, count, x, y, bg, fg, i as nat))
}

/// All the frames of a bar graph, in order.
pub open spec fn bar_frames(data: Seq<u8>, count: nat, x: i32, y: i32, bg: u16, fg: u16) -> Seq<
    FrameModel,
> {
    bar_frames_upto(data, count, x, y, bg, fg, chunk_count(count, BAR_CAPACITY as nat))
}

/// Cuts the first `count` samples of `data` into bar-graph frames.
pub fn bar_graph_chunks(
    x: i32,
    y: i32,
    count: usize,
    color_bg: Color,
    color_fg: Color,
    data: &[u8],
) -> (frames: Vec<Frame>)
    requires
        count <= data@.len(),
    ensures
        frame_models(frames@) == bar_frames(
            data@,
            count as nat,
            x,
            y,
            color_bg.serial(),
            color_fg.serial(),
        ),
{
    let bg = color_bg.as_serial();
    let fg = color_fg.as_serial();
    let ecc = make_hint_byte(fg, bg as i32);
    let mut frames: Vec<Frame> = Vec::new();
    let mut source_index: usize = 0;
    let ghost mut done: nat = 0;
    assert(frame_models(frames@) =~= bar_frames_upto(data@, count as nat, x, y, bg, fg, 0));
    while source_index < count
        invariant
            count <= data@.len(),
            bg == color_bg.serial(),
            fg == color_fg.serial(),
            ecc == hint_byte_dual(fg, bg),
            source_index <= count,
            source_index < count ==> source_index == done * 52,
            source_index == count ==> done == chunk_count(count as nat, 52),
            frame_models(frames@) == bar_frames_upto(data@, count as nat, x, y, bg, fg, done),
        decreases count - source_index,
    {
        let right: usize = if count - source_index < BAR_CAPACITY {
            count - source_index
        } else {
            BAR_CAPACITY
        };
        assert(right == chunk_len(count as nat, 52, done));
        let is_last = source_index + right == count;
        assert(is_last <==> done + 1 == chunk_count(count as nat, 52));
        let left: i32 = #[verifier::truncate] ((x as i128 + source_index as i128) as i32);
        let mut buf = zeroed(CHUNK_SIZE);
        copy_into(&mut buf, GRAPH_RESERVED, data, source_index, right);
        let mut frame = kd_draw_buf(CODE_BAR_GRAPH, left, y, right as i32, bg as i32, fg, ecc, buf);
        if is_last {
            frame.delay_ms = FRAME_DELAY_MS + GRAPH_DELAY_MS;
        }
        proof {
            let model = bar_frame(data@, count as nat, x, y, bg, fg, done);
            assert(frame@.bytes =~= model.bytes);
            assert(frame@.delay_ms == model.delay_ms);
            lemma_frame_models_push(frames@, frame);
        }
        frames.push(frame);
        source_index = source_index + right;
        proof {
            done = done + 1;
            assert(frame_models(frames@) =~= bar_frames_upto(
                data@,
                count as nat,
                x,
                y,
                bg,
                fg,
                done,
            ));
        }
    }
    frames
}

/// Number of samples that line-graph frame `i` carries: those it draws and,
/// where the data goes on, the one after them.
pub open spec fn line_copy_len(data_len: nat, count: nat, i: nat) -> nat {
    let end = chunk_start(LINE_CAPACITY as nat, i) + chunk_len(count, LINE_CAPACITY as nat, i);
    if end < data_len {
        chunk_len(count, LINE_CAPACITY as nat, i) + 1
    } else {
        chunk_len(count, LINE_CAPACITY as nat, i)
    }
}

/// The left field of line-graph frame `i`: one past the running horizontal
/// position, with the start-of-series bit in the first frame.
pub open spec fn line_left(x: i32, i: nat) -> i32 {
    let left = (x + chunk_start(LINE_CAPACITY as nat, i) + 1) as i32;
    if i == 0 {
        left | SERIES_START
    } else {
        left
    }
}

/// Line-graph frame `i` for the first `count` samples of `data`.
pub open spec fn line_frame(
    data: Seq<u8>,
    count: nat,
    x: i32,
    y: i32,
    bg: u16,
    fg: u16,
    i: nat,
) -> FrameModel {
    let start = chunk_start(LINE_CAPACITY as nat, i);
    let len = chunk_len(count, LINE_CAPACITY as nat, i);
    let copy = line_copy_len(data.len(), count, i);
    FrameModel {
        bytes: extended_header(
            CODE_LINE_GRAPH,
            line_left(x, i),
            y,
            len as i32,
            bg as i32,
            fg,
            hint_byte_dual(fg, bg),
        ) + data.subrange(start as int, (start + copy) as int) + zeros(
            (BAR_CAPACITY - copy) as nat,
        ),
        delay_ms: graph_delay(count, LINE_CAPACITY as nat, i),
    }
}

/// The first `k` line-graph frames.
pub open spec fn line_frames_upto(
    data: Seq<u8>,
    count: nat,
    x: i32,
    y: i32,
    bg: u16,
    fg: u16,
    k: nat,
) -> Seq<FrameModel> {
    Seq::new(k, |i: int| line_frame(data, count, x, y, bg, fg, i as nat))
}

/// All the frames of a line graph, in order.
pub open spec fn line_frames(data: Seq<u8>, count: nat, x: i32, y: i32, bg: u16, fg: u16) -> Seq<
    FrameModel,
> {
    line_frames_upto(data, count, x, y, bg, fg, chunk_count(count, LINE_CAPACITY as nat))
}

/// Cuts the first `count` samples of `data` into line-graph frames.
pub fn line_graph_chunks(
    x: i32,
    y: i32,
    count: usize,
    color_bg: Color,
    color_fg: Color,
    data: &[u8],
) -> (frames: Vec<Frame>)
    requires
        count <= data@.len(),
    ensures
        frame_models(frames@) == line_frames(
            data@,
            count as nat,
            x,
            y,
            color_bg.serial(),
            color_fg.serial(),
        ),
{
    let bg = color_bg.as_serial();
    let fg = color_fg.as_serial();
    let ecc = make_hint_byte(fg, bg as i32);
    let total = data.len();
    let mut frames: Vec<Frame> = Vec::new();
    let mut source_index: usize = 0;
    let ghost mut done: nat = 0;
    assert(frame_models(frames@) =~= line_frames_upto(data@, count as nat, x, y, bg, fg, 0));
    while source_index < count
        invariant
            total == data@.len(),
            count <= total,
            bg == color_bg.serial(),
            fg == color_fg.serial(),
            ecc == hint_byte_dual(fg, bg),
            source_index <= count,
            source_index < count ==> source_index == done * 51,
            source_index == count ==> done == chunk_count(count as nat, 51),
            frame_models(frames@) == line_frames_upto(data@, count as nat, x, y, bg, fg, done),
        decreases count - source_index,
    {
        let right: usize = if count - source_index < LINE_CAPACITY {
            count - source_index
        } else {
            LINE_CAPACITY
        };
        assert(right == chunk_len(count as nat, 51, done));
        let is_last = source_index + right == count;
        assert(is_last <==> done + 1 == chunk_count(count as nat, 51));
        let copy_len: usize = if total - source_index > right {
            right + 1
        } else {
            right
        };
        assert(copy_len == line_copy_len(total as nat, count as nat, done));
        let position: i32 = #[verifier::truncate] ((x as i128 + source_index as i128 + 1) as i32);
        let left: i32 = if source_index == 0 {
            position | SERIES_START
        } else {
            position
        };
        assert(left == line_left(x, done));
        let mut buf = zeroed(CHUNK_SIZE);
        copy_into(&mut buf, GRAPH_RESERVED, data, source_index, copy_len);
        let drawn = right as i32;
        let mut frame = kd_draw_buf(CODE_LINE_GRAPH, left, y, drawn, bg as i32, fg, ecc, buf);
        if is_last {
            frame.delay_ms = FRAME_DELAY_MS + GRAPH_DELAY_MS;
        }
        proof {
            let model = line_frame(data@, count as nat, x, y, bg, fg, done);
            assert(frame@.bytes =~= model.bytes);
            assert(frame@.delay_ms == model.delay_ms);
            lemma_frame_models_push(frames@, frame);
        }
        frames.push(frame);
        source_index = source_index + right;
        proof {
            done = done + 1;
            assert(frame_models(frames@) =~= line_frames_upto(
                data@,
                count as nat,
                x,
                y,
                bg,
                fg,
                done,
            ));
        }
    }
    frames
}

/// The payload slice that frame `i` of a transfer carries after its reserved
/// bytes, the overlap sample of a line graph left out.
pub open spec fn frame_payload(
    frames: Seq<FrameModel>,
    reserved: nat,
    n: nat,
    capacity: nat,
    i: nat,
) -> Seq<u8> {
    frames[i as int].bytes.subrange(reserved as int, (reserved + chunk_len(n, capacity, i)) as int)
}

/// The payload slices of the first `k` frames, one after the other.
pub open spec fn joined_payloads(
    frames: Seq<FrameModel>,
    reserved: nat,
    n: nat,
    capacity: nat,
    k: nat,
) -> Seq<u8>
    decreases k,
{
    if k == 0 {
        Seq::<u8>::empty()
    } else {
        joined_payloads(frames, reserved, n, capacity, (k - 1) as nat) + frame_payload(
            frames,
            reserved,
            n,
            capacity,
            (k - 1) as nat,
        )
    }
}

proof fn lemma_joined_payloads_are_chunks(
    frames: Seq<FrameModel>,
    payload: Seq<u8>,
    reserved: nat,
    n: nat,
    capacity: nat,
    k: nat,
)
    requires
        forall|i: nat|
            i < k ==> #[trigger] frame_payload(frames, reserved, n, capacity, i) == chunk_data(
                payload,
                n,
                capacity,
                i,
            ),
    ensures
        joined_payloads(frames, reserved, n, capacity, k) == joined_chunks(
            payload,
            n,
            capacity,
            k,
        ),
    decreases k,
{
    if k > 0 {
        lemma_joined_payloads_are_chunks(frames, payload, reserved, n, capacity, (k - 1) as nat);
    }
}

/// A pixel-list frame below the count has 64 bytes, and after its eight
/// reserved bytes it holds its chunk of the coordinate list.
pub proof fn lemma_pixel_frame_payload(
    coordinates: Seq<u8>,
    offset_x: i32,
    offset_y: i32,
    color: u16,
    i: nat,
)
    requires
        i < chunk_count(coordinates.len(), PIXEL_CAPACITY as nat),
    ensures
        pixel_frame(coordinates, offset_x, offset_y, color, i).bytes.len() == CHUNK_SIZE,
        frame_payload(
            pixel_frames(coordinates, offset_x, offset_y, color),
            PIXEL_RESERVED as nat,
            coordinates.len(),
            PIXEL_CAPACITY as nat,
            i,
        ) == chunk_data(coordinates, coordinates.len(), PIXEL_CAPACITY as nat, i),
{
    lemma_chunk_bounds(coordinates.len(), PIXEL_CAPACITY as nat, i);
    assert(frame_payload(
        pixel_frames(coordinates, offset_x, offset_y, color),
        PIXEL_RESERVED as nat,
        coordinates.len(),
        PIXEL_CAPACITY as nat,
        i,
    ) =~= chunk_data(coordinates, coordinates.len(), PIXEL_CAPACITY as nat, i));
}

/// A pixel-list transfer takes as many frames as the coordinate bytes need at
/// 56 to a frame, rounded up, and the frames' payload slices, joined in
/// order, are the coordinate list.
pub proof fn lemma_pixel_frames_carry_payload(
    coordinates: Seq<u8>,
    offset_x: i32,
    offset_y: i32,
    color: u16,
)
    ensures
        pixel_frames(coordinates, offset_x, offset_y, color).len() == chunk_count(
            coordinates.len(),
            PIXEL_CAPACITY as nat,
        ),
        joined_payloads(
            pixel_frames(coordinates, offset_x, offset_y, color),
            PIXEL_RESERVED as nat,
            coordinates.len(),
            PIXEL_CAPACITY as nat,
            chunk_count(coordinates.len(), PIXEL_CAPACITY as nat),
        ) == coordinates,
{
    let frames = pixel_frames(coordinates, offset_x, offset_y, color);
    let n = coordinates.len();
    let k = chunk_count(n, PIXEL_CAPACITY as nat);
    assert forall|i: nat| i < k implies #[trigger] frame_payload(
        frames,
        PIXEL_RESERVED as nat,
        n,
        PIXEL_CAPACITY as nat,
        i,
    ) == chunk_data(coordinates, n, PIXEL_CAPACITY as nat, i) by {
        lemma_pixel_frame_payload(coordinates, offset_x, offset_y, color, i);
    }
    lemma_joined_payloads_are_chunks(
        frames,
        coordinates,
        PIXEL_RESERVED as nat,
        n,
        PIXEL_CAPACITY as nat,
        k,
    );
    lemma_chunks_rebuild_payload(coordinates, n, PIXEL_CAPACITY as nat);
    assert(coordinates.subrange(0, n as int) =~= coordinates);
}

/// A bar-graph frame below the count has 64 bytes, and after its twelve
/// reserved bytes it holds its chunk of the samples.
pub proof fn lemma_bar_frame_payload(
    data: Seq<u8>,
    count: nat,
    x: i32,
    y: i32,
    bg: u16,
    fg: u16,
    i: nat,
)
    requires
        count <= data.len(),
        i < chunk_count(count, BAR_CAPACITY as nat),
    ensures
        bar_frame(data, count, x, y, bg, fg, i).bytes.len() == CHUNK_SIZE,
        frame_payload(
            bar_frames(data, count, x, y, bg, fg),
            GRAPH_RESERVED as nat,
            count,
            BAR_CAPACITY as nat,
            i,
        ) == chunk_data(data, count, BAR_CAPACITY as nat, i),
{
    lemma_chunk_bounds(count, BAR_CAPACITY as nat, i);
    assert(frame_payload(
        bar_frames(data, count, x, y, bg, fg),
        GRAPH_RESERVED as nat,
        count,
        BAR_CAPACITY as nat,
        i,
    ) =~= chunk_data(data, count, BAR_CAPACITY as nat, i));
}

/// A bar graph takes as many frames as its samples need at 52 to a frame,
/// rounded up, and the frames' payload slices, joined in order, are the
/// samples.
pub proof fn lemma_bar_frames_carry_payload(
    data: Seq<u8>,
    count: nat,
    x: i32,
    y: i32,
    bg: u16,
    fg: u16,
)
    requires
        count <= data.len(),
    ensures
        bar_frames(data, count, x, y, bg, fg).len() == chunk_count(count, BAR_CAPACITY as nat),
        joined_payloads(
            bar_frames(data, count, x, y, bg, fg),
            GRAPH_RESERVED as nat,
            count,
            BAR_CAPACITY as nat,
            chunk_count(count, BAR_CAPACITY as nat),
        ) == data.subrange(0, count as int),
{
    let frames = bar_frames(data, count, x, y, bg, fg);
    let k = chunk_count(count, BAR_CAPACITY as nat);
    assert forall|i: nat| i < k implies #[trigger] frame_payload(
        frames,
        GRAPH_RESERVED as nat,
        count,
        BAR_CAPACITY as nat,
        i,
    ) == chunk_data(data, count, BAR_CAPACITY as nat, i) by {
        lemma_bar_frame_payload(data, count, x, y, bg, fg, i);
    }
    lemma_joined_payloads_are_chunks(
        frames,
        data,
        GRAPH_RESERVED as nat,
        count,
        BAR_CAPACITY as nat,
        k,
    );
    lemma_chunks_rebuild_payload(data, count, BAR_CAPACITY as nat);
}

/// A line-graph frame below the count has 64 bytes, and after its twelve
/// reserved bytes it holds its chunk of the samples. Where another frame
/// follows, the byte after the chunk is the first sample of that frame.
pub proof fn lemma_line_frame_payload(
    data: Seq<u8>,
    count: nat,
    x: i32,
    y: i32,
    bg: u16,
    fg: u16,
    i: nat,
)
    requires
        count <= data.len(),
        i < chunk_count(count, LINE_CAPACITY as nat),
    ensures
        line_frame(data, count, x, y, bg, fg, i).bytes.len() == CHUNK_SIZE,
        frame_payload(
            line_frames(data, count, x, y, bg, fg),
            GRAPH_RESERVED as nat,
            count,
            LINE_CAPACITY as nat,
            i,
        ) == chunk_data(data, count, LINE_CAPACITY as nat, i),
        i + 1 < chunk_count(count, LINE_CAPACITY as nat) ==> line_frame(
            data,
            count,
            x,
            y,
            bg,
            fg,
            i,
        ).bytes[GRAPH_RESERVED + LINE_CAPACITY] == line_frame(
            data,
            count,
            x,
            y,
            bg,
            fg,
            i + 1,
        ).bytes[GRAPH_RESERVED as int],
{
    lemma_chunk_bounds(count, LINE_CAPACITY as nat, i);
    assert(frame_payload(
        line_frames(data, count, x, y, bg, fg),
        GRAPH_RESERVED as nat,
        count,
        LINE_CAPACITY as nat,
        i,
    ) =~= chunk_data(data, count, LINE_CAPACITY as nat, i));
    if i + 1 < chunk_count(count, LINE_CAPACITY as nat) {
        lemma_chunk_bounds(count, LINE_CAPACITY as nat, i + 1);
    }
}

/// A line graph takes as many frames as its samples need at 51 to a frame,
/// rounded up, and the frames' payload slices, each without the sample it
/// shares with the next frame, joined in order, are the samples.
pub proof fn lemma_line_frames_carry_payload(
    data: Seq<u8>,
    count: nat,
    x: i32,
    y: i32,
    bg: u16,
    fg: u16,
)
    requires
        count <= data.len(),
    ensures
        line_frames(data, count, x, y, bg, fg).len() == chunk_count(count, LINE_CAPACITY as nat),
        joined_payloads(
            line_frames(data, count, x, y, bg, fg),
            GRAPH_RESERVED as nat,
            count,
            LINE_CAPACITY as nat,
            chunk_count(count, LINE_CAPACITY as nat),
        ) == data.subrange(0, count as int),
{
    let frames = line_frames(data, count, x, y, bg, fg);
    let k = chunk_count(count, LINE_CAPACITY as nat);
    assert forall|i: nat| i < k implies #[trigger] frame_payload(
        frames,
        GRAPH_RESERVED as nat,
        count,
        LINE_CAPACITY as nat,
        i,
    ) == chunk_data(data, count, LINE_CAPACITY as nat, i) by {
        lemma_line_frame_payload(data, count, x, y, bg, fg, i);
    }
    lemma_joined_payloads_are_chunks(
        frames,
        data,
        GRAPH_RESERVED as nat,
        count,
        LINE_CAPACITY as nat,
        k,
    );
    lemma_chunks_rebuild_payload(data, count, LINE_CAPACITY as nat);
}

} // verus!
