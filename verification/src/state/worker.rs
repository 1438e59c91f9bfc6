//! the slow work of the lock screen, which a worker thread does so that the ui
//! does not stop: checking a password, and saving a screenshot. This module
//! holds what the worker decides, the layout of the buffer that a frame is
//! copied into, and the turning of that buffer into the pixels of an image.
//!
//! Frames are rendered as BGRA (`Bgra8UnormSrgb`), one pixel in four bytes, and
//! copied into a buffer whose rows are padded to the copy alignment of wgpu.
//! A screenshot is saved as RGBA, rows packed one after the other.

use vstd::prelude::*;
use vstd::arithmetic::mul::lemma_mul_inequality;

verus! {

/// An event passed to the worker; `S` is the data needed to save a screenshot
/// (the copied frame and where to save it).
pub enum WorkerEvent<S> {
    /// Stops the worker thread
    Stop,
    /// saves a screenshot
    SaveImage(S),
    /// makes a password check
    CheckPassword(String),
}

/// whether the worker goes on waiting for events once it has handled `event`:
/// it stops when asked to, and when the answer to a password check could not be
/// delivered (`answer_delivered`), since nobody waits for answers any more.
pub fn worker_continues<S>(event: &WorkerEvent<S>, answer_delivered: bool) -> (go_on: bool)
    ensures
        go_on == match *event {
            WorkerEvent::Stop => false,
            WorkerEvent::SaveImage(_) => true,
            WorkerEvent::CheckPassword(_) => answer_delivered,
        },
{
    match event {
        WorkerEvent::Stop => false,
        WorkerEvent::SaveImage(_) => true,
        WorkerEvent::CheckPassword(_) => answer_delivered,
    }
}

/// `value` rounded up to the next multiple of `alignment`
pub open spec fn aligned_up(value: int, alignment: int) -> int {
    if value % alignment == 0 {
        value
    } else {
        value + (alignment - value % alignment)
    }
}

/// the alignment that wgpu asks of the bytes per row of a texture-to-buffer
/// copy, `wgpu::COPY_BYTES_PER_ROW_ALIGNMENT`, which the crate defines as 256.
#[verifier::external_body]
fn copy_bytes_per_row_alignment() -> (a: u32)
    ensures
        a == 256,
{
    wgpu::COPY_BYTES_PER_ROW_ALIGNMENT
}

/// `wgpu::util::align_to` on `u32`: the first number greater than or equal to
/// `value` that is a multiple of `alignment`. It panics when that number does
/// not fit (and when `alignment` is zero), which `requires` leaves out.
#[verifier::external_body]
fn align_to(value: u32, alignment: u32) -> (r: u32)
    requires
        alignment > 0,
        aligned_up(value as int, alignment as int) <= u32::MAX,
    ensures
        r == aligned_up(value as int, alignment as int),
{
    wgpu::util::align_to(value, alignment)
}

/// the layout of the buffer that a frame is copied into to be saved
pub struct ScreenshotLayout {
    /// the bytes of one row in the buffer: those of its pixels, padded
    pub padded_bytes_per_row: u32,
    /// the size of the whole buffer
    pub buffer_size: u64,
}

/// the bytes per row of a frame `physical_w` pixels wide, once padded to the
/// copy alignment
pub open spec fn padded_row(physical_w: u32) -> int {
    aligned_up(physical_w * 4, 256)
}

/// The padded row of a frame is the least multiple of 256 (wgpu's copy
/// alignment) that holds the row's `4 * physical_w` bytes.
pub proof fn lemma_padded_row_is_least_multiple(physical_w: u32)
    ensures
        padded_row(physical_w) % 256 == 0,
        physical_w * 4 <= padded_row(physical_w) < physical_w * 4 + 256,
{
    let v: int = physical_w * 4;
    let r = v % 256;
    assert(0 <= r < 256);
    assert(v == 256 * (v / 256) + r);
    if r != 0 {
        let p = v + (256 - r);
        assert(p == 256 * (v / 256 + 1));
        assert(p % 256 == 0) by {
            vstd::arithmetic::div_mod::lemma_mod_multiples_basic(v / 256 + 1, 256);
        }
    }
}

/// the layout of the buffer for a frame of `physical_w` by `physical_h`
/// pixels: each row takes `4 * physical_w` bytes, padded up to a multiple of
/// 256, and the buffer holds `physical_h` such rows.
pub fn screenshot_layout(physical_w: u32, physical_h: u32) -> (layout: ScreenshotLayout)
    requires
        physical_w * 4 <= u32::MAX,
        padded_row(physical_w) <= u32::MAX,
        padded_row(physical_w) * physical_h <= u32::MAX,
    ensures
        layout.padded_bytes_per_row == padded_row(physical_w),
        layout.buffer_size == padded_row(physical_w) * physical_h,
        layout.padded_bytes_per_row % 256 == 0,
        physical_w * 4 <= layout.padded_bytes_per_row < physical_w * 4 + 256,
        layout.buffer_size == layout.padded_bytes_per_row * physical_h,
{
    proof {
        lemma_padded_row_is_least_multiple(physical_w);
    }
    let alignment = copy_bytes_per_row_alignment();
    let padded_bytes_per_row = align_to(physical_w * 4, alignment);
    let buffer_size = (padded_bytes_per_row * physical_h) as u64;
    ScreenshotLayout { padded_bytes_per_row, buffer_size }
}

/// the byte of a BGRA pixel that holds byte `c` (of 4) of the same RGBA pixel:
/// red and blue trade places, green and alpha stay
pub open spec fn bgra_source(c: int) -> int {
    if c == 0 {
        2
    } else if c == 2 {
        0
    } else {
        c
    }
}

/// Red and blue trade places, green and alpha stay: bytes 0, 1, 2, 3 of an
/// RGBA pixel come from bytes 2, 1, 0, 3 of the BGRA pixel.
pub proof fn lemma_red_and_blue_trade_places()
    ensures
        bgra_source(0) == 2,
        bgra_source(1) == 1,
        bgra_source(2) == 0,
        bgra_source(3) == 3,
{
}

/// the RGBA bytes of the `width` BGRA pixels that start at byte `start` of `data`
pub open spec fn rgba_row(data: Seq<u8>, start: int, width: nat) -> Seq<u8> {
    Seq::new(4 * width, |k: int| data[start + 4 * (k / 4) + bgra_source(k % 4)])
}

/// the RGBA image of the first `rows` rows of a padded BGRA buffer: each row is
/// `width` pixels that start `padded` bytes after those of the row before
pub open spec fn rgba_image(data: Seq<u8>, width: nat, rows: nat, padded: nat) -> Seq<u8>
    decreases rows,
{
    if rows == 0 {
        Seq::empty()
    } else {
        rgba_image(data, width, (rows - 1) as nat, padded) + rgba_row(data, (rows - 1) * padded, width)
    }
}

proof fn lemma_rgba_image_len(data: Seq<u8>, width: nat, rows: nat, padded: nat)
    ensures
        rgba_image(data, width, rows, padded).len() == 4 * width * rows,
    decreases rows,
{
    if rows > 0 {
        let before = (rows - 1) as nat;
        lemma_rgba_image_len(data, width, before, padded);
        let last = rgba_row(data, (rows - 1) * padded, width);
        assert(rgba_image(data, width, rows, padded) == rgba_image(data, width, before, padded) + last);
        assert(last.len() == 4 * width);
        assert(rgba_image(data, width, rows, padded).len() == rgba_image(data, width, before, padded).len() + last.len());
        assert(4 * width * before + 4 * width == 4 * width * rows) by (nonlinear_arith)
            requires
                before + 1 == rows,
        ;
    } else {
        assert(4 * width * rows == 0) by (nonlinear_arith)
            requires
                rows == 0,
        ;
    }
}

/// Each pixel of the image is the pixel of the frame at the same place, with
/// its red and blue bytes traded: byte `c` of pixel `x` of row `y` of the image
/// is byte `bgra_source(c)` of pixel `x` of row `y` of the buffer, which starts
/// `y * padded` bytes into it.
pub proof fn lemma_image_pixel(data: Seq<u8>, width: nat, rows: nat, padded: nat, x: nat, y: nat, c: nat)
    requires
        x < width,
        y < rows,
        c < 4,
    ensures
        rgba_image(data, width, rows, padded)[(4 * (y * width + x) + c) as int]
            == data[y * padded + 4 * x + bgra_source(c as int)],
    decreases rows,
{
    let before = (rows - 1) as nat;
    let last = rgba_row(data, (rows - 1) * padded, width);
    lemma_rgba_image_len(data, width, before, padded);
    assert(rgba_image(data, width, rows, padded) == rgba_image(data, width, before, padded) + last);
    let k = 4 * (y * width + x) + c;
    if y < before {
        lemma_image_pixel(data, width, before, padded, x, y, c);
        assert(k < 4 * width * before) by (nonlinear_arith)
            requires
                x < width,
                y < before,
                c < 4,
                k == 4 * (y * width + x) + c,
        ;
    } else {
        assert(y == before);
        let j = 4 * x + c;
        assert(k == 4 * width * before + j) by (nonlinear_arith)
            requires
                y == before,
                k == 4 * (y * width + x) + c,
                j == 4 * x + c,
        ;
        assert(j / 4 == x && j % 4 == c);
        assert(last[j as int] == data[(rows - 1) * padded + 4 * x + bgra_source(c as int)]);
    }
}

/// turn the frame copied into a padded BGRA buffer into the packed RGBA pixels
/// of an image of `physical_w` by `physical_h` pixels.
///
/// The buffer must hold every row that is read, and the image's size in bytes
/// must fit in a `u32`: the capacity of the image is computed in `u32`.
pub fn rgba_from_bgra_rows(data: &[u8], physical_w: u32, physical_h: u32, padded_bytes_per_row: u32) -> (rgba: Vec<u8>)
    requires
        physical_w * physical_h * 4 <= u32::MAX,
        physical_h > 0 ==> (physical_h - 1) * padded_bytes_per_row + physical_w * 4 <= data@.len(),
    ensures
        rgba@ == rgba_image(data@, physical_w as nat, physical_h as nat, padded_bytes_per_row as nat),
        rgba@.len() == 4 * physical_w * physical_h,
{
    let ghost w = physical_w as nat;
    let ghost padded = padded_bytes_per_row as nat;
    let mut rgba: Vec<u8> = Vec::with_capacity((physical_w * physical_h * 4) as usize);
    let height = physical_h as usize;
    let data_len = data.len();
    let mut row: usize = 0;
    while row < height
        invariant
            data_len == data@.len(),
            height == physical_h,
            row <= height,
            physical_w * physical_h * 4 <= u32::MAX,
            physical_h > 0 ==> (physical_h - 1) * padded_bytes_per_row + physical_w * 4 <= data@.len(),
            rgba@ == rgba_image(data@, w, row as nat, padded),
            w == physical_w,
            padded == padded_bytes_per_row,
        decreases height - row,
    {
        proof {
            lemma_mul_inequality(row as int, (physical_h - 1) as int, padded_bytes_per_row as int);
            lemma_mul_inequality(1, physical_h as int, physical_w as int);
        }
        let start: usize = row * (padded_bytes_per_row as usize);
        let row_bytes: usize = (physical_w * 4) as usize;
        let ghost prefix = rgba@;
        let mut pixel: usize = 0;
        while pixel < physical_w as usize
            invariant
                data_len == data@.len(),
                pixel <= physical_w,
                start + row_bytes <= data@.len(),
                row_bytes == 4 * physical_w,
                rgba@ == prefix + rgba_row(data@, start as int, pixel as nat),
            decreases physical_w - pixel,
        {
            let at = start + 4 * pixel;
            let b = data[at];
            let g = data[at + 1];
            let r = data[at + 2];
            let a = data[at + 3];
            rgba.push(r);
            rgba.push(g);
            rgba.push(b);
            rgba.push(a);
            proof {
                let next = rgba_row(data@, start as int, (pixel + 1) as nat);
                let cur = rgba_row(data@, start as int, pixel as nat);
                assert(next =~= cur + seq![r, g, b, a]) by {
                    assert forall|k: int| 0 <= k < next.len() implies #[trigger] next[k] == (cur + seq![r, g, b, a])[k] by {
                        if k < 4 * pixel {
                            assert(k / 4 < pixel);
                        } else {
                            assert(k / 4 == pixel);
                        }
                    }
                }
            }
            pixel = pixel + 1;
        }
        proof {
            assert(rgba_image(data@, w, (row + 1) as nat, padded) == rgba_image(data@, w, row as nat, padded) + rgba_row(data@, row * padded, w));
        }
        row = row + 1;
    }
    proof {
        lemma_rgba_image_len(data@, w, physical_h as nat, padded);
    }
    rgba
}

/// A frame copied into a buffer laid out by [`screenshot_layout`] can always be
/// turned into an image by [`rgba_from_bgra_rows`]: a buffer of the layout's size
/// holds every row that is read, and the image's size fits in a `u32`.
pub proof fn lemma_layout_fits_conversion(physical_w: u32, physical_h: u32, data_len: int)
    requires
        physical_w * 4 <= u32::MAX,
        padded_row(physical_w) * physical_h <= u32::MAX,
        data_len == padded_row(physical_w) * physical_h,
    ensures
        physical_w * physical_h * 4 <= u32::MAX,
        physical_h > 0 ==> (physical_h - 1) * padded_row(physical_w) + physical_w * 4 <= data_len,
{
    let p = padded_row(physical_w);
    let w = physical_w as int;
    let h = physical_h as int;
    assert(w * 4 <= p);
    assert(w * h * 4 <= p * h) by (nonlinear_arith)
        requires
            w * 4 <= p,
            0 <= h,
    ;
    if h > 0 {
        assert((h - 1) * p + w * 4 <= p * h) by (nonlinear_arith)
            requires
                w * 4 <= p,
                1 <= h,
        ;
    }
}

} // verus!
