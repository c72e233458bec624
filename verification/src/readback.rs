//! Row layout of texture readbacks and the helpers around a captured frame.

use vstd::prelude::*;
use vstd::arithmetic::div_mod::lemma_fundamental_div_mod_converse;
use image::ImageEncoder;

verus! {

/// Alignment, in bytes, that wgpu requires of `bytes_per_row` when a texture
/// is copied into a buffer.
///
/// Trusted: returns `wgpu::COPY_BYTES_PER_ROW_ALIGNMENT`, which wgpu-types
/// defines as the literal 256.
#[verifier::external_body]
fn copy_bytes_per_row_alignment() -> (r: u32)
    ensures
        r == 256,
{
    wgpu::COPY_BYTES_PER_ROW_ALIGNMENT
}

/// The smallest multiple of `align` that is at least `n`.
pub open spec fn round_up(n: int, align: int) -> int
    recommends
        align > 0,
{
    ((n + align - 1) / align) * align
}

/// Bytes per row of a readback buffer: `width * bytes_per_pixel` rounded up
/// to the copy alignment (256 bytes).
pub fn padded_bytes_per_row(width: u32, bytes_per_pixel: u32) -> (r: u32)
    requires
        round_up(width * bytes_per_pixel, 256) <= u32::MAX,
    ensures
        r == round_up(width * bytes_per_pixel, 256),
        r % 256 == 0,
        width * bytes_per_pixel <= r < width * bytes_per_pixel + 256,
{
    let align = copy_bytes_per_row_alignment();
    assert(width * bytes_per_pixel <= round_up(width * bytes_per_pixel, 256)) by (nonlinear_arith)
        requires width * bytes_per_pixel >= 0;
    assert(width as int * bytes_per_pixel as int <= u32::MAX);
    let unpadded: u32 = width * bytes_per_pixel;
    let blocks: u32 = unpadded / align + if unpadded % align == 0 { 0u32 } else { 1u32 };
    assert(blocks * 256 == round_up(unpadded as int, 256)) by (nonlinear_arith)
        requires
            blocks == unpadded / 256 + if unpadded % 256 == 0 { 0int } else { 1int },
            unpadded >= 0;
    let r: u32 = blocks * align;
    assert(r % 256 == 0 && unpadded <= r < unpadded + 256) by (nonlinear_arith)
        requires
            r == blocks * 256,
            blocks == unpadded / 256 + if unpadded % 256 == 0 { 0int } else { 1int },
            unpadded >= 0;
    r
}

/// Tightly packed rows: row `y` of `rows` rows is the `row_bytes` bytes that
/// start at `y * padded_row` in `mapped`.
pub open spec fn unpadded(mapped: Seq<u8>, row_bytes: int, padded_row: int, rows: int) -> Seq<u8> {
    Seq::new(
        (rows * row_bytes) as nat,
        |i: int| mapped[(i / row_bytes) * padded_row + i % row_bytes],
    )
}

/// Drops the per-row padding of a readback buffer, keeping the first
/// `row_bytes` bytes of each of the `rows` rows of `padded_row` bytes.
pub fn strip_row_padding(mapped: &[u8], row_bytes: usize, padded_row: usize, rows: usize) -> (out:
    Vec<u8>)
    requires
        row_bytes <= padded_row,
        rows * padded_row <= mapped@.len(),
    ensures
        out@ == unpadded(mapped@, row_bytes as int, padded_row as int, rows as int),
{
    let mut out: Vec<u8> = Vec::new();
    let total = mapped.len();
    if row_bytes == 0 {
        assert(out@ =~= unpadded(mapped@, 0, padded_row as int, rows as int));
        return out;
    }
    let ghost rb = row_bytes as int;
    let ghost pr = padded_row as int;
    let mut y: usize = 0;
    while y < rows
        invariant
            0 < rb == row_bytes <= padded_row == pr,
            rows * padded_row <= mapped@.len() == total,
            y <= rows,
            out@.len() == y * rb,
            forall|i: int| 0 <= i < out@.len() ==> #[trigger] out@[i] == mapped@[(i / rb) * pr + i % rb],
        decreases rows - y,
    {
        assert(y * pr + pr <= rows * pr) by (nonlinear_arith)
            requires y < rows, pr >= 0;
        let base = y * padded_row;
        let mut k: usize = 0;
        while k < row_bytes
            invariant
                0 < rb == row_bytes <= padded_row == pr,
                rows * padded_row <= mapped@.len(),
                y < rows,
                base == y * pr,
                base + pr <= mapped@.len() == total,
                k <= row_bytes,
                out@.len() == y * rb + k,
                forall|i: int| 0 <= i < out@.len() ==> #[trigger] out@[i] == mapped@[(i / rb) * pr + i % rb],
            decreases row_bytes - k,
        {
            proof {
                lemma_fundamental_div_mod_converse(y * rb + k, rb, y as int, k as int);
            }
            out.push(mapped[base + k]);
            k = k + 1;
        }
        assert(out@.len() == (y + 1) * rb) by (nonlinear_arith)
            requires out@.len() == y * rb + rb;
        y = y + 1;
    }
    assert(out@ =~= unpadded(mapped@, rb, pr, rows as int));
    out
}

/// Law: a buffer without row padding is handed back unchanged (up to its
/// used length).
pub proof fn lemma_unpadded_without_padding(mapped: Seq<u8>, row_bytes: int, rows: int)
    requires
        row_bytes > 0,
        rows >= 0,
        rows * row_bytes <= mapped.len(),
    ensures
        unpadded(mapped, row_bytes, row_bytes, rows) == mapped.take(rows * row_bytes),
{
    let u = unpadded(mapped, row_bytes, row_bytes, rows);
    assert forall|i: int| 0 <= i < u.len() implies u[i] == mapped.take(rows * row_bytes)[i] by {
        vstd::arithmetic::div_mod::lemma_fundamental_div_mod(i, row_bytes);
        assert((i / row_bytes) * row_bytes == row_bytes * (i / row_bytes)) by (nonlinear_arith);
    }
    assert(u =~= mapped.take(rows * row_bytes));
}

/// The PNG file that the image crate writes for an 8-bit RGBA image of the
/// given size and tightly packed pixels (`None` where it reports an error).
pub uninterp spec fn png_rgba8(width: u32, height: u32, pixels: Seq<u8>) -> Option<Seq<u8>>;

/// Encodes tightly packed 8-bit RGBA pixels as a PNG file.
///
/// Trusted: calls `ImageEncoder::write_image` of `image::codecs::png::PngEncoder`
/// (which is what writing an RGBA8 image in PNG format does); its output is
/// taken to be a function of its arguments. It asserts that the buffer holds
/// exactly `width * height * 4` bytes, which the precondition ensures.
#[verifier::external_body]
fn encode_png_rgba8(width: u32, height: u32, pixels: &[u8]) -> (r: Option<Vec<u8>>)
    requires
        pixels@.len() == width * height * 4,
    ensures
        match r {
            Some(png) => png_rgba8(width, height, pixels@) == Some(png@),
            None => png_rgba8(width, height, pixels@) is None,
        },
{
    let mut png: Vec<u8> = Vec::new();
    match image::codecs::png::PngEncoder::new(&mut png).write_image(
        pixels,
        width,
        height,
        image::ExtendedColorType::Rgba8,
    ) {
        Ok(()) => Some(png),
        Err(_) => None,
    }
}

/// The PNG file of an RGBA8 frame read back from a buffer whose rows are
/// `padded_row` bytes apart.
pub fn rgba8_frame_png(mapped: &[u8], width: u32, height: u32, padded_row: u32) -> (r: Option<
    Vec<u8>,
>)
    requires
        width * 4 <= padded_row,
        height * padded_row <= mapped@.len(),
    ensures
        match r {
            Some(png) => png_rgba8(
                width,
                height,
                unpadded(mapped@, width * 4, padded_row as int, height as int),
            ) == Some(png@),
            None => png_rgba8(
                width,
                height,
                unpadded(mapped@, width * 4, padded_row as int, height as int),
            ) is None,
        },
{
    let pixels = strip_row_padding(mapped, width as usize * 4, padded_row as usize, height as usize);
    assert(pixels@.len() == width * height * 4) by (nonlinear_arith)
        requires pixels@.len() == height * (width * 4);
    encode_png_rgba8(width, height, pixels.as_slice())
}

/// Tile edge of the background checkerboard, in pixels.
pub open spec fn tile() -> int {
    50
}

/// The RGBA bytes of pixel `p` (row-major) of a checkerboard `width` pixels
/// wide: tiles of 50 x 50 pixels, warm orange (180, 120, 80) where the tile
/// column and row have odd sum, cool blue (70, 130, 200) elsewhere, opaque.
pub open spec fn checker_pixel(width: int, p: int) -> Seq<u8> {
    let x = p % width;
    let y = p / width;
    if (x / tile() + y / tile()) % 2 == 1 {
        seq![180u8, 120u8, 80u8, 255u8]
    } else {
        seq![70u8, 130u8, 200u8, 255u8]
    }
}

/// The RGBA bytes of a `width` x `height` checkerboard, row-major.
pub open spec fn checkerboard(width: int, height: int) -> Seq<u8> {
    Seq::new((width * height * 4) as nat, |i: int| checker_pixel(width, i / 4)[i % 4])
}

proof fn lemma_xor_parity(a: u32, b: u32)
    ensures
        (((a ^ b) & 1u32) != 0u32) == ((a + b) % 2 == 1),
{
    assert((((a ^ b) & 1u32) != 0u32) == ((a + b) % 2 == 1)) by (bit_vector);
}

/// Law: the background alternates colour from one tile to the next, across
/// (50 pixels right, same row) and down (50 rows lower, same column).
pub proof fn lemma_checker_tiles_alternate(width: int, x: int, y: int)
    requires
        0 <= x,
        x + 50 < width,
        0 <= y,
    ensures
        checker_pixel(width, y * width + x) != checker_pixel(width, y * width + x + 50),
        checker_pixel(width, y * width + x) != checker_pixel(width, (y + 50) * width + x),
{
    lemma_fundamental_div_mod_converse(y * width + x, width, y, x);
    lemma_fundamental_div_mod_converse(y * width + x + 50, width, y, x + 50);
    assert((y + 50) * width + x == y * width + x + 50 * width) by (nonlinear_arith);
    lemma_fundamental_div_mod_converse((y + 50) * width + x, width, y + 50, x);
    assert((x + 50) / 50 == x / 50 + 1);
    assert((y + 50) / 50 == y / 50 + 1);
    let a = checker_pixel(width, y * width + x);
    let b = checker_pixel(width, y * width + x + 50);
    let c = checker_pixel(width, (y + 50) * width + x);
    assert(a[0] != b[0]);
    assert(a[0] != c[0]);
}

/// Law: pixels of one 50 x 50 tile share their colour: two pixels whose
/// columns agree when divided by 50, and whose rows do too, look the same.
pub proof fn lemma_checker_tile_uniform(width: int, x: int, y: int, x2: int, y2: int)
    requires
        0 <= x < width,
        0 <= x2 < width,
        0 <= y,
        0 <= y2,
        x / 50 == x2 / 50,
        y / 50 == y2 / 50,
    ensures
        checker_pixel(width, y * width + x) == checker_pixel(width, y2 * width + x2),
{
    lemma_fundamental_div_mod_converse(y * width + x, width, y, x);
    lemma_fundamental_div_mod_converse(y2 * width + x2, width, y2, x2);
}

/// Law: the first tile is the cool blue one: every pixel of the 50 x 50
/// square at the top left is (70, 130, 200, 255).
pub proof fn lemma_checker_first_tile_blue(width: int, x: int, y: int)
    requires
        0 <= x < 50,
        x < width,
        0 <= y < 50,
    ensures
        checker_pixel(width, y * width + x) == seq![70u8, 130u8, 200u8, 255u8],
{
    lemma_fundamental_div_mod_converse(y * width + x, width, y, x);
}

/// Pixels of the background checkerboard, 4 bytes (RGBA) per pixel, row-major.
pub fn checkerboard_pixels(width: u32, height: u32) -> (pixels: Vec<u8>)
    requires
        width * height * 4 <= u32::MAX,
    ensures
        pixels@ == checkerboard(width as int, height as int),
{
    let mut pixels: Vec<u8> = Vec::new();
    let ghost w = width as int;
    let mut y: u32 = 0;
    while y < height
        invariant
            width * height * 4 <= u32::MAX,
            y <= height,
            w == width,
            pixels@.len() == y * w * 4,
            forall|i: int| 0 <= i < pixels@.len() ==> #[trigger] pixels@[i] == checker_pixel(w, i / 4)[i % 4],
        decreases height - y,
    {
        let mut x: u32 = 0;
        while x < width
            invariant
                width * height * 4 <= u32::MAX,
                y < height,
                x <= width,
                w == width,
                pixels@.len() == (y * w + x) * 4,
                forall|i: int| 0 <= i < pixels@.len() ==> #[trigger] pixels@[i] == checker_pixel(w, i / 4)[i % 4],
            decreases width - x,
        {
            let ghost p = y * w + x;
            proof {
                lemma_fundamental_div_mod_converse(p, w, y as int, x as int);
                lemma_xor_parity(x / 50, y / 50);
            }
            let odd = ((x / 50) ^ (y / 50)) & 1 != 0;
            let ghost start = pixels@.len();
            if odd {
                pixels.push(180);
                pixels.push(120);
                pixels.push(80);
            } else {
                pixels.push(70);
                pixels.push(130);
                pixels.push(200);
            }
            pixels.push(255);
            assert forall|i: int| start <= i < start + 4 implies #[trigger] pixels@[i] == checker_pixel(w, i / 4)[i % 4] by {
                assert(i / 4 == p);
                assert(i % 4 == i - start);
            }
            x = x + 1;
        }
        assert(pixels@.len() == (y + 1) * w * 4) by (nonlinear_arith)
            requires pixels@.len() == (y * w + w) * 4;
        y = y + 1;
    }
    assert(pixels@.len() == w * height * 4) by (nonlinear_arith)
        requires pixels@.len() == height * w * 4;
    assert(pixels@ =~= checkerboard(w, height as int));
    pixels
}

} // verus!
