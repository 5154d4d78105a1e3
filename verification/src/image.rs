//! Pixel buffers: conversion of server pixel layouts to packed RGB, and PNG encoding.

use vstd::prelude::*;

verus! {

/// A packed 8-bit RGB image, row-major, three bytes per pixel.
#[derive(Debug)]
pub struct ImageData {
    pub data: Vec<u8>,
    pub width: u32,
    pub height: u32,
}

/// The RGB triple of the little-endian `B G R (X)` pixel at byte offset `off`,
/// or nothing when the pixel does not lie wholly inside `data`.
pub open spec fn pixel_rgb(data: Seq<u8>, off: int) -> Seq<u8> {
    if 0 <= off && off + 3 <= data.len() {
        seq![data[off + 2], data[off + 1], data[off]]
    } else {
        Seq::<u8>::empty()
    }
}

/// The RGB bytes of the first `cols` pixels of the row starting at `start`.
pub open spec fn row_rgb(data: Seq<u8>, start: int, bpp: int, cols: nat) -> Seq<u8>
    decreases cols,
{
    if cols == 0 {
        Seq::<u8>::empty()
    } else {
        row_rgb(data, start, bpp, (cols - 1) as nat) + pixel_rgb(data, start + (cols - 1) * bpp)
    }
}

/// The RGB bytes of the first `rows` rows of `width` pixels, rows `stride`
/// bytes apart and pixels `bpp` bytes apart; pixels that run past the end of
/// `data` are left out.
pub open spec fn image_rgb(data: Seq<u8>, stride: int, bpp: int, width: nat, rows: nat) -> Seq<u8>
    decreases rows,
{
    if rows == 0 {
        Seq::<u8>::empty()
    } else {
        image_rgb(data, stride, bpp, width, (rows - 1) as nat) + row_rgb(
            data,
            (rows - 1) * stride,
            bpp,
            width,
        )
    }
}

/// `row * stride + col * bpp` when it fits in `usize`.
fn pixel_offset(row: usize, col: usize, stride: usize, bpp: usize) -> (r: Option<usize>)
    ensures
        match r {
            Some(o) => o == row * stride + col * bpp,
            None => row * stride + col * bpp > usize::MAX,
        },
{
    let a = match row.checked_mul(stride) {
        Some(a) => a,
        None => {
            assert(col * bpp >= 0) by (nonlinear_arith);
            return None;
        },
    };
    let b = match col.checked_mul(bpp) {
        Some(b) => b,
        None => {
            return None;
        },
    };
    a.checked_add(b)
}

/// Converts a buffer of `height` rows of `width` pixels in blue-green-red
/// byte order (rows `stride` bytes apart, pixels `bpp` bytes apart) to packed
/// RGB. A pixel whose three colour bytes do not all lie in `data` is skipped.
pub fn bgrx_to_rgb(data: &[u8], width: usize, height: usize, stride: usize, bpp: usize) -> (r: Vec<u8>)
    ensures
        r@ == image_rgb(data@, stride as int, bpp as int, width as nat, height as nat),
{
    let mut out: Vec<u8> = Vec::new();
    let mut row: usize = 0;
    while row < height
        invariant
            row <= height,
            out@ == image_rgb(data@, stride as int, bpp as int, width as nat, row as nat),
        decreases height - row,
    {
        let ghost before = out@;
        let mut col: usize = 0;
        while col < width
            invariant
                row < height,
                col <= width,
                out@ == before + row_rgb(data@, row * stride, bpp as int, col as nat),
            decreases width - col,
        {
            let ghost prev = out@;
            let len = data.len();
            assert(row * stride + col * bpp >= 0) by (nonlinear_arith);
            match pixel_offset(row, col, stride, bpp) {
                Some(off) => {
                    if data.len() >= 3 && off <= data.len() - 3 {
                        out.push(data[off + 2]);
                        out.push(data[off + 1]);
                        out.push(data[off]);
                    }
                },
                None => {},
            }
            assert(out@ =~= prev + pixel_rgb(data@, row * stride + col * bpp));
            col = col + 1;
            assert(out@ =~= before + row_rgb(data@, row * stride, bpp as int, col as nat));
        }
        row = row + 1;
        assert(out@ =~= image_rgb(data@, stride as int, bpp as int, width as nat, row as nat));
    }
    out
}

/// Bytes per pixel that the X server's `GetImage` reply implies: the reply's
/// length divided by the pixel count, or 4 for an empty area.
pub open spec fn x11_bytes_per_pixel(total: nat, w: nat, h: nat) -> nat {
    if w > 0 && h > 0 {
        total / (w * h)
    } else {
        4
    }
}

/// Converts the `Z_PIXMAP` reply of an X `GetImage` request for a `w` x `h`
/// area to packed RGB. Rows are `w * bpp` bytes apart, where `bpp` is
/// `x11_bytes_per_pixel` of the reply's length.
pub fn root_image_to_rgb(data: &[u8], w: u16, h: u16) -> (r: ImageData)
    ensures
        r.width == w,
        r.height == h,
        r.data@ == image_rgb(
            data@,
            w * x11_bytes_per_pixel(data@.len(), w as nat, h as nat),
            x11_bytes_per_pixel(data@.len(), w as nat, h as nat) as int,
            w as nat,
            h as nat,
        ),
{
    let total = data.len();
    let wu = w as usize;
    let hu = h as usize;
    let bpp: usize = if wu > 0 && hu > 0 {
        assert(0 < wu * hu <= 65535 * 65535) by (nonlinear_arith)
            requires
                wu > 0,
                hu > 0,
                wu <= 65535,
                hu <= 65535,
        ;
        total / (wu * hu)
    } else {
        4
    };
    assert(wu * bpp <= usize::MAX) by (nonlinear_arith)
        requires
            wu <= 65535,
            total <= usize::MAX,
            (wu > 0 && hu > 0) ==> bpp as int == total as int / (wu as int * hu as int),
            !(wu > 0 && hu > 0) ==> bpp == 4,
            usize::MAX >= 65535 * 4,
    ;
    let stride = wu * bpp;
    let rgb = bgrx_to_rgb(data, wu, hu, stride, bpp);
    ImageData { data: rgb, width: w as u32, height: h as u32 }
}

/// Pixel layouts a compositor may hand over for a screen copy.
#[derive(Debug, Clone, Copy, PartialEq, Eq, Structural)]
pub enum PixelFormat {
    Xrgb8888,
    Argb8888,
    Rgb888,
    Other,
}

impl PixelFormat {
    pub open spec fn spec_bytes_per_pixel(self) -> nat {
        match self {
            PixelFormat::Rgb888 => 3,
            _ => 4,
        }
    }

    /// Bytes per pixel: 3 for `Rgb888`, otherwise 4.
    pub fn bytes_per_pixel(self) -> (r: usize)
        ensures
            r == self.spec_bytes_per_pixel(),
    {
        match self {
            PixelFormat::Rgb888 => 3,
            _ => 4,
        }
    }
}

/// Converts a mapped screen-copy buffer (`height` rows `stride` bytes apart,
/// pixels in the layout `format`) to an RGB image of `width` x `height`.
pub fn frame_to_image(mem: &[u8], width: u32, height: u32, stride: u32, format: PixelFormat) -> (r: ImageData)
    ensures
        r.width == width,
        r.height == height,
        r.data@ == image_rgb(
            mem@,
            stride as int,
            format.spec_bytes_per_pixel() as int,
            width as nat,
            height as nat,
        ),
{
    let bpp = format.bytes_per_pixel();
    let rgb = bgrx_to_rgb(mem, width as usize, height as usize, stride as usize, bpp);
    ImageData { data: rgb, width, height }
}

/// The three RGB bytes of pixel number `i` of a packed RGB buffer.
pub open spec fn rgb_at(s: Seq<u8>, i: int) -> Seq<u8> {
    s.subrange(3 * i, 3 * i + 3)
}

/// Row-major pixel number of `(row, col)` in an image `width` pixels wide.
pub open spec fn pixel_number(width: int, row: int, col: int) -> int {
    row * width + col
}

/// Byte offset of `(row, col)` in a buffer with the given stride and pixel size.
pub open spec fn source_offset(stride: int, bpp: int, row: int, col: int) -> int {
    row * stride + col * bpp
}

proof fn lemma_mul_bounds(a: int, b: int, n: int)
    requires
        0 <= a <= n,
        b >= 0,
    ensures
        0 <= a * b <= n * b,
{
    assert(0 <= a * b <= n * b) by (nonlinear_arith)
        requires
            0 <= a <= n,
            b >= 0,
    ;
}

proof fn lemma_full_row(data: Seq<u8>, start: int, bpp: int, cols: nat)
    requires
        start >= 0,
        bpp >= 0,
        cols > 0,
        start + (cols - 1) * bpp + 3 <= data.len(),
    ensures
        row_rgb(data, start, bpp, cols).len() == 3 * cols,
        forall|c: int|
            0 <= c < cols ==> #[trigger] rgb_at(row_rgb(data, start, bpp, cols), c) == pixel_rgb(
                data,
                start + c * bpp,
            ),
        forall|c: int| 0 <= c < cols ==> (#[trigger] pixel_rgb(data, start + c * bpp)).len() == 3,
    decreases cols,
{
    let row = row_rgb(data, start, bpp, cols);
    let last = start + (cols - 1) * bpp;
    let prev = row_rgb(data, start, bpp, (cols - 1) as nat);
    assert(row == prev + pixel_rgb(data, last));
    assert forall|c: int| 0 <= c < cols implies (#[trigger] pixel_rgb(data, start + c * bpp)).len() == 3 by {
        lemma_mul_bounds(c, bpp, cols - 1);
    }
    lemma_mul_bounds(cols - 1, bpp, cols - 1);
    assert(pixel_rgb(data, last).len() == 3);
    if cols == 1 {
        assert(prev =~= Seq::<u8>::empty());
        assert forall|c: int| 0 <= c < cols implies #[trigger] rgb_at(row, c) == pixel_rgb(data, start + c * bpp) by {
            assert(c == 0);
            assert(last == start + c * bpp);
            assert(rgb_at(row, c) =~= pixel_rgb(data, last));
        }
    } else {
        lemma_mul_bounds(cols - 2, bpp, cols - 1);
        lemma_full_row(data, start, bpp, (cols - 1) as nat);
        assert forall|c: int| 0 <= c < cols implies #[trigger] rgb_at(row, c) == pixel_rgb(data, start + c * bpp) by {
            if c < cols - 1 {
                assert(rgb_at(row, c) =~= rgb_at(prev, c));
            } else {
                assert(rgb_at(row, c) =~= pixel_rgb(data, last));
            }
        }
    }
}

/// When every pixel lies inside the buffer, the conversion yields exactly
/// three bytes per pixel, and pixel `(row, col)` of the result is the source
/// pixel at `row * stride + col * bpp` with its red and blue bytes swapped.
pub proof fn lemma_full_image(data: Seq<u8>, stride: int, bpp: int, width: nat, rows: nat)
    requires
        stride >= 0,
        bpp >= 0,
        width > 0,
        rows > 0,
        (rows - 1) * stride + (width - 1) * bpp + 3 <= data.len(),
    ensures
        image_rgb(data, stride, bpp, width, rows).len() == 3 * width * rows,
        forall|r: int, c: int|
            0 <= r < rows && 0 <= c < width ==> #[trigger] rgb_at(
                image_rgb(data, stride, bpp, width, rows),
                pixel_number(width as int, r, c),
            ) == pixel_rgb(data, source_offset(stride, bpp, r, c)),
        forall|r: int, c: int|
            0 <= r < rows && 0 <= c < width ==> #[trigger] pixel_rgb(
                data,
                source_offset(stride, bpp, r, c),
            ) == seq![
                data[source_offset(stride, bpp, r, c) + 2],
                data[source_offset(stride, bpp, r, c) + 1],
                data[source_offset(stride, bpp, r, c)],
            ],
    decreases rows,
{
    let img = image_rgb(data, stride, bpp, width, rows);
    let start = (rows - 1) * stride;
    lemma_mul_bounds(rows - 1, stride, rows - 1);
    lemma_mul_bounds(width - 1, bpp, width - 1);
    lemma_full_row(data, start, bpp, width);
    let row = row_rgb(data, start, bpp, width);
    let prev = image_rgb(data, stride, bpp, width, (rows - 1) as nat);
    assert(img == prev + row);
    assert(3 * width * rows == 3 * width * (rows - 1) + 3 * width) by (nonlinear_arith);
    if rows == 1 {
        assert(prev =~= Seq::<u8>::empty());
        assert(3 * width * (rows - 1) == 0) by (nonlinear_arith)
            requires
                rows == 1,
        ;
    } else {
        lemma_mul_bounds(rows - 2, stride, rows - 1);
        lemma_full_image(data, stride, bpp, width, (rows - 1) as nat);
    }
    assert(prev.len() == 3 * width * (rows - 1));
    assert(img.len() == prev.len() + row.len());
    assert forall|r: int, c: int| 0 <= r < rows && 0 <= c < width implies #[trigger] pixel_rgb(
        data,
        source_offset(stride, bpp, r, c),
    ) == seq![
        data[source_offset(stride, bpp, r, c) + 2],
        data[source_offset(stride, bpp, r, c) + 1],
        data[source_offset(stride, bpp, r, c)],
    ] by {
        lemma_mul_bounds(r, stride, rows - 1);
        lemma_mul_bounds(c, bpp, width - 1);
    }
    assert forall|r: int, c: int| 0 <= r < rows && 0 <= c < width implies #[trigger] rgb_at(
        img,
        pixel_number(width as int, r, c),
    ) == pixel_rgb(data, source_offset(stride, bpp, r, c)) by {
        let i = pixel_number(width as int, r, c);
        if r < rows - 1 {
            assert(3 * i + 3 <= 3 * width * (rows - 1)) by (nonlinear_arith)
                requires
                    i == r * width + c,
                    0 <= r < rows - 1,
                    0 <= c < width,
            ;
            assert(i >= 0) by (nonlinear_arith)
                requires
                    i == r * width + c,
                    0 <= r,
                    0 <= c,
                    width > 0,
            ;
            assert(rgb_at(img, i) =~= rgb_at(prev, i));
        } else {
            assert(3 * i == 3 * width * (rows - 1) + 3 * c) by (nonlinear_arith)
                requires
                    i == r * width + c,
                    r == rows - 1,
            ;
            assert(rgb_at(img, i) =~= rgb_at(row, c));
            assert(source_offset(stride, bpp, r, c) == start + c * bpp);
        }
    }
}

#[verifier::external_type_specification]
#[verifier::external_body]
pub struct ExEncodingError(png::EncodingError);

/// The bytes of the PNG file that `png` writes for an 8-bit RGB image of
/// `width` x `height` pixels with the given packed samples, default options.
pub uninterp spec fn png_rgb8_file(data: Seq<u8>, width: u32, height: u32) -> Seq<u8>;

/// The eight-byte PNG file signature.
pub open spec fn png_signature() -> Seq<u8> {
    seq![137u8, 80u8, 78u8, 71u8, 13u8, 10u8, 26u8, 10u8]
}

/// Encodes with `png::Encoder::new` on a `Vec`, `set_color(Rgb)`,
/// `set_depth(Eight)`, `write_header`, `Writer::write_image_data` and
/// `Writer::finish`.
///
/// Claimed of the crate: `write_header` fails exactly for a zero width or
/// height, `write_image_data` exactly when the buffer is not
/// `width * 3 * height` bytes, and nothing else fails when writing to memory;
/// the output starts with the PNG signature and depends on the arguments alone.
#[verifier::external_body]
fn png_encode_rgb8(data: &[u8], width: u32, height: u32) -> (r: Result<Vec<u8>, png::EncodingError>)
    requires
        width * 3 * height <= usize::MAX,
    ensures
        r is Ok <==> (width > 0 && height > 0 && data@.len() == width * 3 * height),
        r matches Ok(v) ==> v@ == png_rgb8_file(data@, width, height) && v@.len() >= 8
            && v@.subrange(0, 8) == png_signature(),
{
    let mut out = Vec::new();
    let mut encoder = png::Encoder::new(&mut out, width, height);
    encoder.set_color(png::ColorType::Rgb);
    encoder.set_depth(png::BitDepth::Eight);
    let mut writer = encoder.write_header()?;
    writer.write_image_data(data)?;
    writer.finish()?;
    Ok(out)
}

/// Why an image could not be encoded.
#[derive(Debug)]
pub enum EncodeError {
    /// The pixel buffer does not hold `width * height * 3` bytes.
    BufferSize,
    /// The PNG encoder refused the image.
    Png(png::EncodingError),
}

/// Encodes an RGB image as a PNG file in memory. Succeeds exactly when the
/// image has a non-zero width and height and `width * height * 3` bytes.
pub fn encode_png(img: &ImageData) -> (r: Result<Vec<u8>, EncodeError>)
    ensures
        r is Ok <==> (img.width > 0 && img.height > 0 && img.data@.len() == img.width * 3
            * img.height),
        r matches Ok(v) ==> v@ == png_rgb8_file(img.data@, img.width, img.height) && v@.len() >= 8
            && v@.subrange(0, 8) == png_signature(),
        r matches Err(EncodeError::BufferSize) ==> img.data@.len() != img.width * 3 * img.height,
{
    let w = img.width as u64;
    let h = img.height as u64;
    let len = img.data.len();
    let w3: u128 = (w as u128) * 3;
    assert(w3 * (h as u128) <= u128::MAX) by (nonlinear_arith)
        requires
            w3 <= 0xffff_ffff * 3,
            h <= 0xffff_ffff,
    ;
    let size: u128 = w3 * (h as u128);
    if size != len as u128 {
        return Err(EncodeError::BufferSize);
    }
    match png_encode_rgb8(img.data.as_slice(), img.width, img.height) {
        Ok(v) => Ok(v),
        Err(e) => Err(EncodeError::Png(e)),
    }
}

/// An X `GetImage` reply that holds at least three bytes per pixel of a
/// non-empty area converts to an image of exactly `w * h * 3` bytes, which
/// `encode_png` accepts.
pub proof fn lemma_complete_reply(data: Seq<u8>, w: nat, h: nat)
    requires
        w > 0,
        h > 0,
        data.len() >= 3 * w * h,
    ensures
        ({
            let bpp = x11_bytes_per_pixel(data.len(), w, h);
            image_rgb(data, (w * bpp) as int, bpp as int, w, h).len() == w * 3 * h
        }),
{
    let bpp = x11_bytes_per_pixel(data.len(), w, h);
    let total = data.len();
    assert(bpp >= 3 && bpp * (w * h) <= total) by (nonlinear_arith)
        requires
            w > 0,
            h > 0,
            total >= 3 * w * h,
            bpp == total / (w * h),
    ;
    assert((h - 1) * (w * bpp) + (w - 1) * bpp + 3 <= total) by (nonlinear_arith)
        requires
            w > 0,
            h > 0,
            bpp >= 3,
            bpp * (w * h) <= total,
    ;
    assert(w * bpp >= 0) by (nonlinear_arith)
        requires
            bpp >= 0,
    ;
    lemma_full_image(data, (w * bpp) as int, bpp as int, w, h);
    assert(3 * w * h == w * 3 * h) by (nonlinear_arith);
}

/// The 32-bit formats take four bytes per pixel and `Rgb888` three: pixel
/// `(row, col)` of a converted frame whose pixels all lie in the buffer is the
/// source pixel at `row * stride + col * 4` (at `row * stride + col * 3` for
/// `Rgb888`), blue and red swapped, and the image has three bytes per pixel.
pub proof fn lemma_frame_pixels(mem: Seq<u8>, stride: int, width: nat, height: nat, format: PixelFormat)
    requires
        stride >= 0,
        width > 0,
        height > 0,
        (height - 1) * stride + (width - 1) * (if format == PixelFormat::Rgb888 {
            3int
        } else {
            4int
        }) + 3 <= mem.len(),
    ensures
        format != PixelFormat::Rgb888 ==> format.spec_bytes_per_pixel() == 4,
        format == PixelFormat::Rgb888 ==> format.spec_bytes_per_pixel() == 3,
        image_rgb(mem, stride, format.spec_bytes_per_pixel() as int, width, height).len() == 3 * width
            * height,
        forall|r: int, c: int|
            0 <= r < height && 0 <= c < width ==> #[trigger] rgb_at(
                image_rgb(mem, stride, format.spec_bytes_per_pixel() as int, width, height),
                pixel_number(width as int, r, c),
            ) == seq![
                mem[r * stride + c * (if format == PixelFormat::Rgb888 {
                    3int
                } else {
                    4int
                }) + 2],
                mem[r * stride + c * (if format == PixelFormat::Rgb888 {
                    3int
                } else {
                    4int
                }) + 1],
                mem[r * stride + c * (if format == PixelFormat::Rgb888 {
                    3int
                } else {
                    4int
                })],
            ],
{
    let b: int = if format == PixelFormat::Rgb888 {
        3int
    } else {
        4int
    };
    assert(format.spec_bytes_per_pixel() == b);
    lemma_full_image(mem, stride, b, width, height);
    assert forall|r: int, c: int| 0 <= r < height && 0 <= c < width implies #[trigger] rgb_at(
        image_rgb(mem, stride, b, width, height),
        pixel_number(width as int, r, c),
    ) == seq![mem[r * stride + c * b + 2], mem[r * stride + c * b + 1], mem[r * stride + c * b]] by {
        assert(source_offset(stride, b, r, c) == r * stride + c * b);
        assert(pixel_rgb(mem, source_offset(stride, b, r, c)) == seq![
            mem[source_offset(stride, b, r, c) + 2],
            mem[source_offset(stride, b, r, c) + 1],
            mem[source_offset(stride, b, r, c)],
        ]);
    }
}

} // verus!
