//! Device independent bitmaps, which is how DirectShow hands out frames.

use crate::camera;
use crate::camera::{CameraError, CameraErrorView};
use crate::jpeg;
use crate::text;
use vstd::prelude::*;

verus! {

/// An image of `width * height` pixels, three bytes each, from the top left on.
pub struct RgbFrame {
    pub width: u32,
    pub height: u32,
    pub rgb: Vec<u8>,
}

/// The unsigned number in the two bytes from `i` on, the low byte first.
pub open spec fn le16(bytes: Seq<u8>, i: int) -> int {
    bytes[i] + 0x100 * bytes[i + 1]
}

/// The unsigned number in the four bytes from `i` on, the low byte first.
pub open spec fn le32(bytes: Seq<u8>, i: int) -> int {
    le16(bytes, i) + 0x1_0000 * le16(bytes, i + 2)
}

/// The same four bytes as a signed number.
pub open spec fn signed_le32(bytes: Seq<u8>, i: int) -> int {
    if le32(bytes, i) >= 0x8000_0000 {
        le32(bytes, i) - 0x1_0000_0000
    } else {
        le32(bytes, i)
    }
}

pub open spec fn magnitude(n: int) -> int {
    if n < 0 {
        -n
    } else {
        n
    }
}

/// Where the pixels of a bitmap begin.
pub open spec fn dib_offset(dib: Seq<u8>) -> int {
    le32(dib, 0)
}

pub open spec fn dib_width(dib: Seq<u8>) -> int {
    magnitude(signed_le32(dib, 4))
}

pub open spec fn dib_height(dib: Seq<u8>) -> int {
    magnitude(signed_le32(dib, 8))
}

/// Whether the last row of the image comes first in the bitmap.
pub open spec fn dib_is_bottom_up(dib: Seq<u8>) -> bool {
    signed_le32(dib, 8) > 0
}

pub open spec fn dib_bit_count(dib: Seq<u8>) -> int {
    le16(dib, 14)
}

pub open spec fn dib_compression(dib: Seq<u8>) -> int {
    le32(dib, 16)
}

/// The bytes of one row: those of its pixels, filled up to a multiple of four.
pub open spec fn dib_stride(dib: Seq<u8>) -> int {
    (dib_width(dib) * (dib_bit_count(dib) / 8) + 3) / 4 * 4
}

/// What is wrong with a bitmap, or `None` where its pixels can be read.
pub open spec fn dib_problem(dib: Seq<u8>) -> Option<Seq<char>> {
    if dib.len() < 40 {
        Some("directshow frame too small"@)
    } else if dib_offset(dib) < 40 || dib.len() <= dib_offset(dib) {
        Some("invalid DIB header in directshow frame"@)
    } else if dib_compression(dib) != 0 {
        Some("unsupported DIB compression type: "@ + text::decimal(dib_compression(dib) as nat))
    } else if dib_bit_count(dib) != 24 && dib_bit_count(dib) != 32 {
        Some(
            "unsupported DIB pixel format: "@ + text::decimal(dib_bit_count(dib) as nat)
                + " bits"@,
        )
    } else if dib.len() < dib_offset(dib) + dib_stride(dib) * dib_height(dib) {
        Some("truncated DIB buffer returned by directshow"@)
    } else {
        None
    }
}

/// Where the pixel in column `x` of row `y` of the image stands in a bitmap.
pub open spec fn dib_position(dib: Seq<u8>, x: int, y: int) -> int {
    let row = if dib_is_bottom_up(dib) {
        dib_height(dib) - 1 - y
    } else {
        y
    };
    dib_offset(dib) + row * dib_stride(dib) + x * (dib_bit_count(dib) / 8)
}

/// Byte `i` of the image in a bitmap, whose pixels hold blue, green and red in this order.
pub open spec fn dib_byte(dib: Seq<u8>, i: int) -> u8 {
    let pixel = i / 3;
    dib[dib_position(dib, pixel % dib_width(dib), pixel / dib_width(dib)) + 2 - i % 3]
}

/// The image in a bitmap, as red, green and blue of one pixel after the other.
pub open spec fn dib_rgb(dib: Seq<u8>) -> Seq<u8> {
    Seq::new((3 * (dib_height(dib) * dib_width(dib))) as nat, |i: int| dib_byte(dib, i))
}

fn read_le16(bytes: &[u8], i: usize) -> (n: u16)
    requires
        i <= 0x100,
        i + 2 <= bytes@.len(),
    ensures
        n == le16(bytes@, i as int),
{
    bytes[i] as u16 + 0x100 * bytes[i + 1] as u16
}

fn read_le32(bytes: &[u8], i: usize) -> (n: u32)
    requires
        i <= 0x80,
        i + 4 <= bytes@.len(),
    ensures
        n == le32(bytes@, i as int),
{
    read_le16(bytes, i) as u32 + 0x1_0000 * read_le16(bytes, i + 2) as u32
}

fn read_signed_le32(bytes: &[u8], i: usize) -> (n: i64)
    requires
        i <= 0x80,
        i + 4 <= bytes@.len(),
    ensures
        n == signed_le32(bytes@, i as int),
{
    let n: i64 = read_le32(bytes, i) as i64;
    if n >= 0x8000_0000 {
        n - 0x1_0000_0000
    } else {
        n
    }
}

fn abs(n: i64) -> (m: u32)
    requires
        -0x8000_0000 <= n <= 0x7FFF_FFFF,
    ensures
        m == magnitude(n as int),
{
    if n < 0 {
        (-n) as u32
    } else {
        n as u32
    }
}

fn failure(message: &str) -> (e: CameraError)
    ensures
        e@ == CameraErrorView::BackendFailure(message@),
{
    CameraError::BackendFailure(message.to_owned())
}

proof fn lemma_dib_position(dib: Seq<u8>, x: int, y: int)
    requires
        dib_problem(dib) is None,
        0 <= x < dib_width(dib),
        0 <= y < dib_height(dib),
    ensures
        dib_offset(dib) <= dib_position(dib, x, y),
        dib_position(dib, x, y) + 3 <= dib.len(),
{
    let bpp = dib_bit_count(dib) / 8;
    let row = if dib_is_bottom_up(dib) {
        dib_height(dib) - 1 - y
    } else {
        y
    };
    let stride = dib_stride(dib);
    let (w, h) = (dib_width(dib), dib_height(dib));
    assert(stride >= w * bpp);
    assert(x * bpp + bpp <= w * bpp) by (nonlinear_arith)
        requires
            x + 1 <= w,
            bpp >= 0,
    ;
    assert(0 <= x * bpp) by (nonlinear_arith)
        requires
            x >= 0,
            bpp >= 0,
    ;
    assert(row * stride + stride <= stride * h) by (nonlinear_arith)
        requires
            row + 1 <= h,
            stride >= 0,
    ;
    assert(0 <= row * stride) by (nonlinear_arith)
        requires
            row >= 0,
            stride >= 0,
    ;
}

proof fn lemma_dib_byte(dib: Seq<u8>, x: int, y: int, c: int)
    requires
        dib_problem(dib) is None,
        0 <= x < dib_width(dib),
        0 <= y < dib_height(dib),
        0 <= c < 3,
    ensures
        dib_byte(dib, 3 * (y * dib_width(dib) + x) + c) == dib[dib_position(dib, x, y) + 2 - c],
        0 <= y * dib_width(dib) + x < dib_height(dib) * dib_width(dib),
{
    let (w, h) = (dib_width(dib), dib_height(dib));
    let p = y * w + x;
    vstd::arithmetic::div_mod::lemma_fundamental_div_mod_converse(3 * p + c, 3, p, c);
    vstd::arithmetic::div_mod::lemma_fundamental_div_mod_converse(p, w, y, x);
    assert(0 <= p < h * w) by (nonlinear_arith)
        requires
            p == y * w + x,
            0 <= x < w,
            0 <= y,
            y + 1 <= h,
    ;
}

/// Reads the image in a bitmap.
pub fn decode_dib(dib: &[u8]) -> (frame: Result<RgbFrame, CameraError>)
    ensures
        match (frame, dib_problem(dib@)) {
            (Err(e), Some(problem)) => e@ == CameraErrorView::BackendFailure(problem),
            (Ok(f), None) => {
                &&& f.width == dib_width(dib@)
                &&& f.height == dib_height(dib@)
                &&& f.rgb@ == dib_rgb(dib@)
            },
            _ => false,
        },
{
    if dib.len() < 40 {
        return Err(failure("directshow frame too small"));
    }
    let header_size = read_le32(dib, 0);
    let height = read_signed_le32(dib, 8);
    let width_u32 = abs(read_signed_le32(dib, 4));
    let height_u32 = abs(height);
    let bit_count = read_le16(dib, 14);
    let compression = read_le32(dib, 16);
    if header_size < 40 || dib.len() as u64 <= header_size as u64 {
        return Err(failure("invalid DIB header in directshow frame"));
    }
    if compression != 0 {
        let message = text::joined(
            "unsupported DIB compression type: ",
            text::decimal_text(compression as u64).as_str(),
        );
        return Err(CameraError::BackendFailure(message));
    }
    if bit_count != 24 && bit_count != 32 {
        let message = text::joined3(
            "unsupported DIB pixel format: ",
            text::decimal_text(bit_count as u64).as_str(),
            " bits",
        );
        return Err(CameraError::BackendFailure(message));
    }
    let bytes_per_pixel: u16 = bit_count / 8;
    assert(width_u32 * bytes_per_pixel <= 0x8000_0000 * 4) by (nonlinear_arith)
        requires
            width_u32 <= 0x8000_0000,
            bytes_per_pixel <= 4,
    ;
    let row_stride: u64 = (width_u32 as u64 * bytes_per_pixel as u64 + 3) / 4 * 4;
    assert(0 <= row_stride * height_u32 <= 0x3_0000_0000 * 0x8000_0000) by (nonlinear_arith)
        requires
            row_stride <= 0x3_0000_0000,
            height_u32 <= 0x8000_0000,
    ;
    let needed: u128 = header_size as u128 + row_stride as u128 * height_u32 as u128;
    if (dib.len() as u128) < needed {
        return Err(failure("truncated DIB buffer returned by directshow"));
    }
    assert(dib_problem(dib@) is None);
    let len: usize = dib.len();
    let is_bottom_up = height > 0;
    let mut rgb: Vec<u8> = Vec::new();
    let mut y: u32 = 0;
    let ghost w = dib_width(dib@);
    let ghost h = dib_height(dib@);
    let ghost image = dib_rgb(dib@);
    assert(image.take(0) =~= Seq::empty());
    assert(3 * (0 * w) == 0);
    while y < height_u32
        invariant
            dib_problem(dib@) is None,
            len == dib@.len(),
            width_u32 == w,
            height_u32 == h,
            w == dib_width(dib@),
            h == dib_height(dib@),
            image == dib_rgb(dib@),
            bytes_per_pixel == dib_bit_count(dib@) / 8,
            row_stride == dib_stride(dib@),
            header_size == dib_offset(dib@),
            is_bottom_up == dib_is_bottom_up(dib@),
            y <= height_u32,
            rgb@ == image.take(3 * (y * w)),
        decreases height_u32 - y,
    {
        let src_row: u32 = if is_bottom_up {
            height_u32 - 1 - y
        } else {
            y
        };
        let mut x: u32 = 0;
        while x < width_u32
            invariant
                dib_problem(dib@) is None,
                len == dib@.len(),
                width_u32 == w,
                height_u32 == h,
                w == dib_width(dib@),
                h == dib_height(dib@),
                image == dib_rgb(dib@),
                bytes_per_pixel == dib_bit_count(dib@) / 8,
                row_stride == dib_stride(dib@),
                header_size == dib_offset(dib@),
                src_row == if dib_is_bottom_up(dib@) {
                    h - 1 - y
                } else {
                    y as int
                },
                y < height_u32,
                x <= width_u32,
                rgb@ == image.take(3 * (y * w + x)),
            decreases width_u32 - x,
        {
            proof {
                lemma_dib_position(dib@, x as int, y as int);
                lemma_dib_byte(dib@, x as int, y as int, 0);
                lemma_dib_byte(dib@, x as int, y as int, 1);
                lemma_dib_byte(dib@, x as int, y as int, 2);
                assert(0 <= src_row * row_stride) by (nonlinear_arith)
                    requires
                        src_row >= 0,
                        row_stride >= 0,
                ;
                assert(0 <= x * bytes_per_pixel) by (nonlinear_arith)
                    requires
                        x >= 0,
                        bytes_per_pixel >= 0,
                ;
            }
            assert(header_size + src_row * row_stride + x * bytes_per_pixel + 3 <= len);
            let row_start: u64 = header_size as u64 + src_row as u64 * row_stride;
            let i: usize = (row_start + x as u64 * bytes_per_pixel as u64) as usize;
            assert(i == dib_position(dib@, x as int, y as int));
            let b = dib[i];
            let g = dib[i + 1];
            let r = dib[i + 2];
            let ghost done = 3 * (y * w + x);
            rgb.push(r);
            rgb.push(g);
            rgb.push(b);
            x += 1;
            assert(3 * (y * w + x) == done + 3);
            assert(image[done] == r && image[done + 1] == g && image[done + 2] == b);
            assert(rgb@ =~= image.take(3 * (y * w + x)));
        }
        assert(y * w + w == (y + 1) * w) by (nonlinear_arith);
        y += 1;
    }
    assert(image.take(3 * (h * w)) =~= image);
    Ok(RgbFrame { width: width_u32, height: height_u32, rgb })
}

/// The quality at which photos are encoded.
pub const PHOTO_QUALITY: u8 = 90;

/// What becomes of a photo when the encoder has answered this.
pub open spec fn encoded(answer: Option<Result<Seq<u8>, Seq<char>>>) -> Result<
    Seq<u8>,
    CameraErrorView,
> {
    match answer {
        Some(Ok(file)) => Ok(file),
        Some(Err(message)) => Err(
            CameraErrorView::BackendFailure("jpeg encoding failed: "@ + message),
        ),
        None => Err(CameraErrorView::BackendFailure("failed to decode directshow frame buffer"@)),
    }
}

/// What becomes of a photo when the encoder has answered this.
pub fn photo_encoded(answer: Option<Result<Vec<u8>, String>>) -> (photo: Result<
    Vec<u8>,
    CameraError,
>)
    ensures
        camera::viewed(photo) == encoded(jpeg::answer_view(answer)),
{
    match answer {
        Some(Ok(file)) => Ok(file),
        Some(Err(message)) => Err(
            CameraError::BackendFailure(text::joined("jpeg encoding failed: ", message.as_str())),
        ),
        None => Err(failure("failed to decode directshow frame buffer")),
    }
}

/// The JPEG file of the image in a bitmap.
pub open spec fn dib_jpeg(dib: Seq<u8>) -> Result<Seq<u8>, CameraErrorView> {
    match dib_problem(dib) {
        Some(problem) => Err(CameraErrorView::BackendFailure(problem)),
        None => encoded(
            Some(
                jpeg::jpeg_at_quality(
                    dib_width(dib) as u32,
                    dib_height(dib) as u32,
                    dib_rgb(dib),
                    PHOTO_QUALITY,
                ),
            ),
        ),
    }
}

/// Converts a bitmap to a JPEG file.
pub fn dib_to_jpeg(dib: &[u8]) -> (photo: Result<Vec<u8>, CameraError>)
    ensures
        camera::viewed(photo) == dib_jpeg(dib@),
        photo is Ok <==> {
            &&& dib_problem(dib@) is None
            &&& 1 <= dib_width(dib@) <= 65535
            &&& 1 <= dib_height(dib@) <= 65535
        },
        photo matches Ok(file) ==> jpeg::is_jpeg(file@),
{
    match decode_dib(dib) {
        Ok(frame) => {
            assert(3 * frame.width * frame.height == 3 * (frame.height * frame.width))
                by (nonlinear_arith);
            assert(0 <= frame.height * frame.width) by (nonlinear_arith)
                requires
                    0 <= frame.height,
                    0 <= frame.width,
            ;
            photo_encoded(
                jpeg::encode_at_quality(frame.width, frame.height, frame.rgb, PHOTO_QUALITY),
            )
        },
        Err(e) => Err(e),
    }
}

/// Two bitmaps that differ only in the sign of their height hold the same image upside down.
pub proof fn negated_height_flips_the_image(a: Seq<u8>, b: Seq<u8>, x: int, y: int, c: int)
    requires
        dib_problem(a) is None,
        dib_problem(b) is None,
        a.len() == b.len(),
        forall|i: int| 0 <= i < a.len() && !(8 <= i < 12) ==> #[trigger] a[i] == b[i],
        signed_le32(a, 8) == -signed_le32(b, 8),
        0 <= x < dib_width(a),
        0 <= y < dib_height(a),
        0 <= c < 3,
    ensures
        dib_width(a) == dib_width(b),
        dib_height(a) == dib_height(b),
        dib_rgb(a)[3 * (y * dib_width(a) + x) + c] == dib_rgb(b)[3 * ((dib_height(a) - 1 - y)
            * dib_width(a) + x) + c],
{
    let flipped = dib_height(a) - 1 - y;
    assert(a[0] == b[0] && a[1] == b[1] && a[2] == b[2] && a[3] == b[3]);
    assert(a[4] == b[4] && a[5] == b[5] && a[6] == b[6] && a[7] == b[7]);
    assert(a[14] == b[14] && a[15] == b[15]);
    lemma_dib_byte(a, x, y, c);
    lemma_dib_byte(b, x, flipped, c);
    lemma_dib_position(a, x, y);
    assert(dib_position(a, x, y) == dib_position(b, x, flipped));
}

// ---------------------------------------------------------------------------
// Laws on the bytes
// ---------------------------------------------------------------------------

/// Whether the bytes of a bitmap say this of it: where its pixels begin, its width and its height
/// with their signs, the bits of a pixel and its compression.
pub open spec fn says(
    dib: Seq<u8>,
    offset: int,
    width: int,
    height: int,
    bits: int,
    compression: int,
) -> bool {
    &&& dib.len() >= 40
    &&& offset == dib[0] + 256 * dib[1] + 65536 * dib[2] + 16777216 * dib[3]
    &&& -2147483648 <= width < 2147483648
    &&& {
        let w = dib[4] + 256 * dib[5] + 65536 * dib[6] + 16777216 * dib[7];
        width == w || width == w - 4294967296
    }
    &&& -2147483648 <= height < 2147483648
    &&& {
        let h = dib[8] + 256 * dib[9] + 65536 * dib[10] + 16777216 * dib[11];
        height == h || height == h - 4294967296
    }
    &&& bits == dib[14] + 256 * dib[15]
    &&& compression == dib[16] + 256 * dib[17] + 65536 * dib[18] + 16777216 * dib[19]
}

proof fn lemma_says(
    dib: Seq<u8>,
    offset: int,
    width: int,
    height: int,
    bits: int,
    compression: int,
)
    requires
        says(dib, offset, width, height, bits, compression),
    ensures
        dib_offset(dib) == offset,
        signed_le32(dib, 4) == width,
        signed_le32(dib, 8) == height,
        dib_bit_count(dib) == bits,
        dib_compression(dib) == compression,
{
}

proof fn lemma_stride(w: int, bytes: int, stride: int)
    requires
        stride % 4 == 0,
        w * bytes <= stride < w * bytes + 4,
    ensures
        stride == (w * bytes + 3) / 4 * 4,
{
}

/// Every pixel of an image is the one that stands at its place in the bitmap, with its bytes in
/// the opposite order. Rows fill up to a multiple of four bytes; a bitmap with a positive height
/// begins with the last row of the image, and every other one with the first.
#[verifier::spinoff_prover]
#[verifier::rlimit(40)]
pub proof fn every_pixel_stands_at_its_place(
    dib: Seq<u8>,
    offset: int,
    width: int,
    height: int,
    bits: int,
    stride: int,
    x: int,
    y: int,
)
    requires
        says(dib, offset, width, height, bits, 0),
        offset >= 40,
        bits == 24 || bits == 32,
        stride % 4 == 0,
        ({
            let w = if width < 0 {
                -width
            } else {
                width
            };
            let h = if height < 0 {
                -height
            } else {
                height
            };
            &&& w * (bits / 8) <= stride < w * (bits / 8) + 4
            &&& offset < dib.len()
            &&& offset + stride * h <= dib.len()
            &&& 0 <= x < w
            &&& 0 <= y < h
        }),
    ensures
        ({
            let w = if width < 0 {
                -width
            } else {
                width
            };
            let h = if height < 0 {
                -height
            } else {
                height
            };
            let row = if height > 0 {
                h - 1 - y
            } else {
                y
            };
            let at = offset + row * stride + x * (bits / 8);
            let pixel = 3 * (y * w + x);
            let image = dib_rgb(dib);
            &&& dib_problem(dib) is None
            &&& dib_width(dib) == w && dib_height(dib) == h
            &&& image.len() == 3 * (h * w)
            &&& image[pixel] == dib[at + 2]
            &&& image[pixel + 1] == dib[at + 1]
            &&& image[pixel + 2] == dib[at]
        }),
{
    lemma_says(dib, offset, width, height, bits, 0);
    let w = dib_width(dib);
    let h = dib_height(dib);
    lemma_stride(w, bits / 8, stride);
    assert(dib_stride(dib) == stride);
    assert(dib_problem(dib) is None);
    lemma_dib_byte(dib, x, y, 0);
    lemma_dib_byte(dib, x, y, 1);
    lemma_dib_byte(dib, x, y, 2);
    assert(0 <= h * w) by (nonlinear_arith)
        requires
            0 <= h,
            0 <= w,
    ;
}

/// A bitmap is refused for one of five reasons, and the first of them is told: it has no room for
/// its header, its pixels begin inside the header or behind its end, it is compressed, its pixels
/// have neither 24 nor 32 bits, or rows are missing.
#[verifier::spinoff_prover]
#[verifier::rlimit(40)]
pub proof fn a_bitmap_is_refused_for_five_reasons_only(
    dib: Seq<u8>,
    offset: int,
    width: int,
    height: int,
    bits: int,
    compression: int,
    stride: int,
)
    requires
        dib.len() >= 40 ==> says(dib, offset, width, height, bits, compression),
        stride % 4 == 0,
        ({
            let w = if width < 0 {
                -width
            } else {
                width
            };
            w * (bits / 8) <= stride < w * (bits / 8) + 4
        }),
    ensures
        ({
            let h = if height < 0 {
                -height
            } else {
                height
            };
            dib_problem(dib) == (if dib.len() < 40 {
                Some("directshow frame too small"@)
            } else if offset < 40 || offset >= dib.len() {
                Some("invalid DIB header in directshow frame"@)
            } else if compression != 0 {
                Some("unsupported DIB compression type: "@ + text::decimal(compression as nat))
            } else if bits != 24 && bits != 32 {
                Some("unsupported DIB pixel format: "@ + text::decimal(bits as nat) + " bits"@)
            } else if offset + stride * h > dib.len() {
                Some("truncated DIB buffer returned by directshow"@)
            } else {
                None
            })
        }),
        dib.len() >= 40 ==> {
            &&& dib_width(dib) == width || dib_width(dib) == -width
            &&& dib_height(dib) == height || dib_height(dib) == -height
            &&& dib_width(dib) >= 0 && dib_height(dib) >= 0
            &&& dib_rgb(dib).len() == 3 * (dib_height(dib) * dib_width(dib))
        },
{
    if dib.len() >= 40 {
        assert(0 <= dib_height(dib) * dib_width(dib)) by (nonlinear_arith)
            requires
                0 <= dib_height(dib),
                0 <= dib_width(dib),
        ;
        lemma_says(dib, offset, width, height, bits, compression);
        lemma_stride(dib_width(dib), bits / 8, stride);
        assert(dib_stride(dib) == stride);
    }
}

/// A photo is the file of the image in its bitmap at the quality of 90. A bitmap that is refused
/// and an image that cannot be encoded are answered with what is wrong.
pub proof fn a_photo_is_the_file_of_its_image(dib: Seq<u8>)
    ensures
        dib_problem(dib) matches Some(problem) ==> dib_jpeg(dib) == Err::<Seq<u8>, CameraErrorView>(
            CameraErrorView::BackendFailure(problem),
        ),
        dib_problem(dib) is None ==> match jpeg::jpeg_at_quality(
            dib_width(dib) as u32,
            dib_height(dib) as u32,
            dib_rgb(dib),
            90,
        ) {
            Ok(file) => dib_jpeg(dib) == Ok::<Seq<u8>, CameraErrorView>(file),
            Err(message) => dib_jpeg(dib) == Err::<Seq<u8>, CameraErrorView>(
                CameraErrorView::BackendFailure("jpeg encoding failed: "@ + message),
            ),
        },
        encoded(None) == Err::<Seq<u8>, CameraErrorView>(
            CameraErrorView::BackendFailure("failed to decode directshow frame buffer"@),
        ),
{
}

}
