use vstd::prelude::*;

use image::codecs::png::PngEncoder;
use image::{ExtendedColorType, ImageEncoder, ImageError, ImageFormat, ImageReader};

use crate::types::MoodbarError;

verus! {

/// The error type of the `image` crate, carried through unopened.
#[verifier::external_type_specification]
#[verifier::external_body]
pub struct ExImageError(ImageError);

/// The PNG file that `image`'s PNG encoder writes for an 8-bit RGBA raster of
/// the given size.
pub uninterp spec fn png_rgba8_encoding(rgba: Seq<u8>, width: u32, height: u32) -> Seq<u8>;

/// What `image`'s PNG decoder, without allocation limits, reads from a byte
/// string: the pixels converted to 8-bit RGBA, with the width and height, or
/// nothing when the bytes are not a PNG it can decode.
pub uninterp spec fn png_rgba8_decoding(png: Seq<u8>) -> Option<(Seq<u8>, u32, u32)>;

/// The eight bytes that open every PNG file.
pub open spec fn png_signature() -> Seq<u8> {
    seq![137u8, 80u8, 78u8, 71u8, 13u8, 10u8, 26u8, 10u8]
}

/// Bytes in an RGBA raster of the given size.
pub open spec fn rgba_len(width: u32, height: u32) -> nat {
    width as nat * height as nat * 4
}

/// Encodes an RGBA raster with `image::codecs::png::PngEncoder::write_image`
/// (default compression and filter, color type `Rgba8`) into a fresh byte
/// vector. Claimed of it, from the encoder's source: it fails exactly when a
/// dimension is zero; otherwise the bytes start with the PNG signature and are
/// the encoder's output for this raster. PNG is lossless and the encoder
/// writes 8-bit RGBA samples, so the decoder reads back exactly this raster and
/// size. `write_image` asserts (panics) when the buffer length is not
/// `width * height * 4`, which `requires` rules out.
#[verifier::external_body]
fn write_rgba_png(rgba: &Vec<u8>, width: u32, height: u32) -> (r: Result<Vec<u8>, ImageError>)
    requires
        rgba@.len() == rgba_len(width, height),
    ensures
        r is Err <==> (width == 0 || height == 0),
        r matches Ok(bytes) ==> {
            &&& bytes@ == png_rgba8_encoding(rgba@, width, height)
            &&& bytes@.len() >= 8
            &&& bytes@.subrange(0, 8) == png_signature()
            &&& png_rgba8_decoding(bytes@) == Some((rgba@, width, height))
        },
{
    let mut out: Vec<u8> = Vec::new();
    let res = PngEncoder::new(&mut out).write_image(rgba, width, height, ExtendedColorType::Rgba8);
    match res {
        Ok(()) => Ok(out),
        Err(e) => Err(e),
    }
}

/// Decodes PNG bytes with `image::ImageReader` (format PNG, `no_limits`,
/// `decode`) and converts the image with `to_rgba8`. Claimed of it: it
/// succeeds exactly when [`png_rgba8_decoding`] gives a raster, and then
/// returns that raster and size.
#[verifier::external_body]
fn read_rgba_png(bytes: &Vec<u8>) -> (r: Result<(Vec<u8>, u32, u32), ImageError>)
    ensures
        r is Ok <==> png_rgba8_decoding(bytes@) is Some,
        r matches Ok((px, w, h)) ==> png_rgba8_decoding(bytes@) == Some((px@, w, h)),
{
    let mut reader = ImageReader::with_format(std::io::Cursor::new(bytes.as_slice()), ImageFormat::Png);
    reader.no_limits();
    match reader.decode() {
        Ok(img) => {
            let rgba = img.to_rgba8();
            let (w, h) = rgba.dimensions();
            Ok((rgba.into_raw(), w, h))
        },
        Err(e) => Err(e),
    }
}

/// The text with which `image::ImageError` displays itself (its `Display`);
/// nothing is claimed of it.
#[verifier::external_body]
fn image_error_text(e: &ImageError) -> (s: String) {
    e.to_string()
}

/// Encodes an RGBA raster as PNG bytes.
pub fn encode_png(buf: Vec<u8>, width: u32, height: u32) -> (r: Result<Vec<u8>, MoodbarError>)
    requires
        buf@.len() == rgba_len(width, height),
    ensures
        r is Err <==> (width == 0 || height == 0),
        r matches Ok(bytes) ==> bytes@ == png_rgba8_encoding(buf@, width, height)
            && bytes@.len() >= 8 && bytes@.subrange(0, 8) == png_signature(),
        r matches Ok(bytes) ==> png_rgba8_decoding(bytes@) == Some((buf@, width, height)),
        r matches Err(e) ==> e is Image,
{
    match write_rgba_png(&buf, width, height) {
        Ok(bytes) => Ok(bytes),
        Err(e) => Err(MoodbarError::Image(image_error_text(&e))),
    }
}

/// A PNG read back as an 8-bit RGBA raster: its bytes, width and height.
#[derive(Debug, Clone)]
pub struct DecodedPng {
    pub rgba: Vec<u8>,
    pub width: u32,
    pub height: u32,
}

/// Reads PNG bytes back into an 8-bit RGBA raster; bytes that do not decode
/// are an image error.
pub fn decode_png(bytes: &Vec<u8>) -> (r: Result<DecodedPng, MoodbarError>)
    ensures
        r is Ok <==> png_rgba8_decoding(bytes@) is Some,
        r matches Ok(d) ==> png_rgba8_decoding(bytes@) == Some((d.rgba@, d.width, d.height)),
        r matches Err(e) ==> e is Image,
{
    match read_rgba_png(bytes) {
        Ok((rgba, width, height)) => Ok(DecodedPng { rgba, width, height }),
        Err(e) => Err(MoodbarError::Image(image_error_text(&e))),
    }
}


/// A fully transparent raster: every byte zero.
pub open spec fn transparent_raster(width: u32, height: u32) -> Seq<u8> {
    Seq::new(rgba_len(width, height), |i: int| 0u8)
}

fn zero_bytes(n: usize) -> (v: Vec<u8>)
    ensures
        v@ == Seq::new(n as nat, |i: int| 0u8),
{
    let mut v: Vec<u8> = Vec::with_capacity(n);
    let mut i: usize = 0;
    while i < n
        invariant
            i <= n,
            v@ == Seq::new(i as nat, |k: int| 0u8),
        decreases n - i,
    {
        v.push(0);
        i = i + 1;
        assert(v@ =~= Seq::new(i as nat, |k: int| 0u8));
    }
    v
}

/// The PNG of a fully transparent image of the given size.
pub fn empty_png(width: u32, height: u32) -> (r: Result<Vec<u8>, MoodbarError>)
    requires
        rgba_len(width, height) <= usize::MAX,
    ensures
        r is Err <==> (width == 0 || height == 0),
        r matches Ok(bytes) ==> bytes@ == png_rgba8_encoding(
            transparent_raster(width, height),
            width,
            height,
        ),
        r matches Ok(bytes) ==> png_rgba8_decoding(bytes@) == Some(
            (transparent_raster(width, height), width, height),
        ),
{
    let w = width as usize;
    let h = height as usize;
    assert(w * h * 4 == rgba_len(width, height)) by (nonlinear_arith)
        requires
            w == width,
            h == height,
    ;
    assert(w * h <= usize::MAX) by (nonlinear_arith)
        requires
            w * h * 4 <= usize::MAX,
    ;
    let n = w * h * 4;
    encode_png(zero_bytes(n), width, height)
}

/// A zeroed RGBA raster of the given size.
pub fn new_rgba_buffer(width: u32, height: u32) -> (buf: Vec<u8>)
    requires
        rgba_len(width, height) <= u32::MAX,
    ensures
        buf@ == transparent_raster(width, height),
{
    assert(width * height <= u32::MAX) by (nonlinear_arith)
        requires
            width as nat * height as nat * 4 <= u32::MAX,
    ;
    let n = width * height * 4;
    zero_bytes(n as usize)
}

/// The byte offset of row `y`, column `x` in a raster `width` pixels wide.
pub open spec fn pixel_offset(width: u32, x: u32, y: int) -> int {
    y * (width as int * 4) + x as int * 4
}

/// Pixels are laid out row after row, four bytes each: the pixel at column
/// `x`, row `y` starts at byte `(y * width + x) * 4`, and neighbouring columns
/// and rows are four and `4 * width` bytes apart.
pub proof fn lemma_pixel_layout(width: u32, x: u32, y: int)
    ensures
        pixel_offset(width, x, y) == (y * width + x) * 4,
        (x as int) < u32::MAX ==> pixel_offset(width, (x + 1) as u32, y) == pixel_offset(width, x, y) + 4,
        pixel_offset(width, x, y + 1) == pixel_offset(width, x, y) + 4 * width,
{
    assert(y * (width as int * 4) + x as int * 4 == (y * width + x) * 4) by (nonlinear_arith);
    assert((y + 1) * (width as int * 4) == y * (width as int * 4) + 4 * width) by (nonlinear_arith);
}

/// Whether byte `i` lies in one of the pixels of column `x`, rows `y0` up to `y1`.
pub open spec fn in_column(width: u32, x: u32, y0: u32, y1: u32, i: int) -> bool {
    exists|y: int|
        y0 <= y < y1 && pixel_offset(width, x, y) <= i < #[trigger] pixel_offset(width, x, y) + 4
}

proof fn lemma_pixel_offset_aligned(width: u32, x: u32, y: int)
    requires
        y >= 0,
    ensures
        pixel_offset(width, x, y) % 4 == 0,
        pixel_offset(width, x, y) >= 0,
{
    let w = width as int;
    let xi = x as int;
    let k = y * w + xi;
    assert(y * (w * 4) + xi * 4 == 4 * k && k >= 0) by (nonlinear_arith)
        requires
            k == y * w + xi,
            y >= 0,
            w >= 0,
            xi >= 0,
    ;
    assert((4 * k) % 4 == 0);
}

/// Paints the pixels of column `x` from row `y0` up to (not including) `y1`
/// with `rgba`; every other byte is left as it was.
pub fn fill_column_raw(buf: &mut Vec<u8>, width: u32, x: u32, y0: u32, y1: u32, rgba: [u8; 4])
    requires
        y1 <= y0 || width as nat * 4 <= u32::MAX,
        y1 <= y0 || pixel_offset(width, x, y1 - 1) + 4 <= old(buf)@.len(),
    ensures
        final(buf)@.len() == old(buf)@.len(),
        forall|i: int|
            0 <= i < old(buf)@.len() ==> final(buf)@[i] == if in_column(width, x, y0, y1, i) {
                rgba[i % 4]
            } else {
                old(buf)@[i]
            },
{
    if y1 <= y0 {
        return;
    }
    let total = buf.len();
    proof {
        lemma_pixel_offset_aligned(width, x, y1 - 1);
        assert(x * 4 <= pixel_offset(width, x, y1 - 1)) by (nonlinear_arith)
            requires
                y1 >= 1,
        ;
    }
    let stride = (width * 4) as usize;
    let col_start = (x as usize) * 4;
    let ghost start = buf@;
    let mut y: u32 = y0;
    while y < y1
        invariant
            y0 <= y <= y1,
            y0 < y1,
            stride == width as nat * 4,
            col_start == x as nat * 4,
            pixel_offset(width, x, y1 - 1) + 4 <= start.len(),
            start.len() == total,
            buf@.len() == start.len(),
            forall|i: int|
                0 <= i < start.len() ==> buf@[i] == if in_column(width, x, y0, y, i) {
                    rgba[i % 4]
                } else {
                    start[i]
                },
        decreases y1 - y,
    {
        proof {
            lemma_pixel_offset_aligned(width, x, y as int);
            assert(pixel_offset(width, x, y as int) <= pixel_offset(width, x, y1 - 1))
                by (nonlinear_arith)
                requires
                    y <= y1 - 1,
                    y >= 0,
            ;
            assert(y * stride <= pixel_offset(width, x, y as int)) by (nonlinear_arith)
                requires
                    stride == width * 4,
                    y >= 0,
            ;
        }
        let offset = (y as usize) * stride + col_start;
        assert(offset == pixel_offset(width, x, y as int)) by (nonlinear_arith)
            requires
                offset == y * stride + col_start,
                stride == width * 4,
                col_start == x * 4,
        ;
        let ghost before = buf@;
        buf.set(offset, rgba[0]);
        buf.set(offset + 1, rgba[1]);
        buf.set(offset + 2, rgba[2]);
        buf.set(offset + 3, rgba[3]);
        assert forall|i: int| 0 <= i < start.len() implies buf@[i] == if in_column(
            width,
            x,
            y0,
            (y + 1) as u32,
            i,
        ) {
            rgba[i % 4]
        } else {
            start[i]
        } by {
            if offset <= i < offset + 4 {
                assert(in_column(width, x, y0, (y + 1) as u32, i));
                assert(i % 4 == i - offset);
            } else {
                if in_column(width, x, y0, (y + 1) as u32, i) {
                    let w = choose|w: int|
                        y0 <= w < y + 1 && pixel_offset(width, x, w) <= i < #[trigger] pixel_offset(
                            width,
                            x,
                            w,
                        ) + 4;
                    assert(w != y);
                    assert(in_column(width, x, y0, y, i));
                }
                if in_column(width, x, y0, y, i) {
                    let w = choose|w: int|
                        y0 <= w < y && pixel_offset(width, x, w) <= i < #[trigger] pixel_offset(
                            width,
                            x,
                            w,
                        ) + 4;
                    assert(in_column(width, x, y0, (y + 1) as u32, i));
                }
            }
        }
        y = y + 1;
    }
}

} // verus!
