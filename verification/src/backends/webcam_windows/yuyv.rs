//! YUY2 frames as RGB pixels and as JPEG files.

use crate::camera;
use crate::camera::{CameraError, CameraErrorView};
use crate::jpeg;
use vstd::prelude::*;

verus! {

/// The status where a frame has too few pixels.
pub const FRAME_TOO_SHORT: u32 = 0xDEAD_0001;

/// The status where a frame cannot be encoded.
pub const FRAME_NOT_ENCODED: u32 = 0xDEAD_0002;

/// The value closest to `x` that a byte has room for.
pub open spec fn clamped(x: int) -> u8 {
    if x < 0 {
        0
    } else if x > 255 {
        255
    } else {
        x as u8
    }
}

/// The red of a pixel: `y + 1.402 v` rounded down, with `v` centred.
pub open spec fn red(y: u8, v: u8) -> u8 {
    clamped((1000 * y + 1402 * (v - 128)) / 1000)
}

/// The green of a pixel: `y - 0.344136 u - 0.714136 v` rounded down, with `u` and `v` centred.
///
/// The sum is taken in single precision. That makes a difference for one pair of `u` and `v`
/// only, where the sum is a whole number and comes out just below it for a small `y`.
pub open spec fn green(y: u8, u: u8, v: u8) -> u8 {
    let exact = (1000000 * y - 344136 * (u - 128) - 714136 * (v - 128)) / 1000000;
    if u == 228 && v == 28 && y < 28 {
        clamped(exact - 1)
    } else {
        clamped(exact)
    }
}

/// The blue of a pixel: `y + 1.772 u` rounded down, with `u` centred.
pub open spec fn blue(y: u8, u: u8) -> u8 {
    clamped((1000 * y + 1772 * (u - 128)) / 1000)
}

/// The byte at `k` of the pixels of a YUY2 frame, which packs two pixels into the four bytes
/// `Y0 U Y1 V`.
pub open spec fn rgb_byte(data: Seq<u8>, k: int) -> u8 {
    let pixel = k / 3;
    let group = 4 * (pixel / 2);
    let y = data[group + 2 * (pixel % 2)];
    let u = data[group + 1];
    let v = data[group + 3];
    if k % 3 == 0 {
        red(y, v)
    } else if k % 3 == 1 {
        green(y, u, v)
    } else {
        blue(y, u)
    }
}

/// The pixels of a YUY2 frame, three bytes for each.
pub open spec fn yuyv_rgb(data: Seq<u8>) -> Seq<u8> {
    Seq::new(6 * (data.len() / 4), |k: int| rgb_byte(data, k))
}

fn clamped_byte(x: i64) -> (byte: u8)
    ensures
        byte == clamped(x as int),
{
    if x < 0 {
        0
    } else if x > 255 {
        255
    } else {
        x as u8
    }
}

/// `x / d` rounded down, or something negative where `x` is.
fn floored(x: i64, d: i64) -> (q: i64)
    requires
        0 < d,
    ensures
        x >= 0 ==> q == x as int / d as int,
        x < 0 ==> q == -1,
{
    if x < 0 {
        -1
    } else {
        x / d
    }
}

/// The red of a pixel.
pub fn red_of(y: u8, v: u8) -> (byte: u8)
    ensures
        byte == red(y, v),
{
    clamped_byte(floored(1000 * y as i64 + 1402 * (v as i64 - 128), 1000))
}

/// The green of a pixel.
pub fn green_of(y: u8, u: u8, v: u8) -> (byte: u8)
    ensures
        byte == green(y, u, v),
{
    let exact: i64 = floored(
        1000000 * y as i64 - 344136 * (u as i64 - 128) - 714136 * (v as i64 - 128),
        1000000,
    );
    if u == 228 && v == 28 && y < 28 {
        clamped_byte(exact - 1)
    } else {
        clamped_byte(exact)
    }
}

/// The blue of a pixel.
pub fn blue_of(y: u8, u: u8) -> (byte: u8)
    ensures
        byte == blue(y, u),
{
    clamped_byte(floored(1000 * y as i64 + 1772 * (u as i64 - 128), 1000))
}

/// Converts a YUY2 frame to pixels; bytes behind the last whole group are left out.
pub fn yuyv_to_rgb(data: &[u8]) -> (rgb: Vec<u8>)
    ensures
        rgb@ == yuyv_rgb(data@),
{
    let len: usize = data.len();
    let groups: usize = len / 4;
    let mut rgb: Vec<u8> = Vec::new();
    let mut n: usize = 0;
    while n < groups
        invariant
            n <= groups,
            len == data@.len(),
            groups == len / 4,
            rgb@ == yuyv_rgb(data@).take(6 * n),
        decreases groups - n,
    {
        let at: usize = 4 * n;
        let y0 = data[at];
        let u = data[at + 1];
        let y1 = data[at + 2];
        let v = data[at + 3];
        let ghost before = rgb@;
        rgb.push(red_of(y0, v));
        rgb.push(green_of(y0, u, v));
        rgb.push(blue_of(y0, u));
        rgb.push(red_of(y1, v));
        rgb.push(green_of(y1, u, v));
        rgb.push(blue_of(y1, u));
        n += 1;
        assert(rgb@ =~= yuyv_rgb(data@).take(6 * n)) by {
            assert forall|k: int| 0 <= k < 6 * n implies #[trigger] rgb@[k] == rgb_byte(
                data@,
                k,
            ) by {
                if k < 6 * (n - 1) {
                    assert(rgb@[k] == before[k]);
                } else {
                    assert((k / 3) / 2 == n - 1);
                }
            }
        }
    }
    assert(yuyv_rgb(data@).take(6 * groups) =~= yuyv_rgb(data@));
    rgb
}

/// What becomes of a frame when the encoder has answered this: a frame with too few pixels and
/// a frame that cannot be encoded have a status each.
pub open spec fn encoded(answer: Option<Result<Seq<u8>, Seq<char>>>) -> Result<
    Seq<u8>,
    CameraErrorView,
> {
    match answer {
        Some(Ok(file)) => Ok(file),
        Some(Err(_)) => Err(CameraErrorView::SdkError(FRAME_NOT_ENCODED)),
        None => Err(CameraErrorView::SdkError(FRAME_TOO_SHORT)),
    }
}

/// What becomes of a frame when the encoder has answered this.
pub fn frame_encoded(answer: Option<Result<Vec<u8>, String>>) -> (frame: Result<
    Vec<u8>,
    CameraError,
>)
    ensures
        camera::viewed(frame) == encoded(jpeg::answer_view(answer)),
{
    match answer {
        Some(Ok(file)) => Ok(file),
        Some(Err(_)) => Err(CameraError::SdkError(FRAME_NOT_ENCODED)),
        None => Err(CameraError::SdkError(FRAME_TOO_SHORT)),
    }
}

/// Whether a YUY2 frame has no more pixels than `width * height`.
pub open spec fn frame_fits(data: Seq<u8>, width: u32, height: u32) -> bool {
    2 * (data.len() / 4) <= width * height
}

/// The JPEG file of a YUY2 frame.
pub open spec fn yuyv_jpeg(data: Seq<u8>, width: u32, height: u32) -> Result<
    Seq<u8>,
    CameraErrorView,
> {
    encoded(
        if 2 * (data.len() / 4) < width * height {
            None
        } else {
            Some(jpeg::jpeg_by_default(width, height, yuyv_rgb(data)))
        },
    )
}

/// Converts a YUY2 (YUYV) frame to a JPEG buffer.
///
/// A frame that has too many pixels is not accepted.
pub fn yuyv_to_jpeg(data: &[u8], width: u32, height: u32) -> (frame: Result<Vec<u8>, CameraError>)
    requires
        frame_fits(data@, width, height),
    ensures
        camera::viewed(frame) == yuyv_jpeg(data@, width, height),
        frame is Ok <==> {
            &&& 2 * (data@.len() / 4) == width * height
            &&& jpeg::jpeg_side(width)
            &&& jpeg::jpeg_side(height)
        },
        frame matches Ok(file) ==> jpeg::is_jpeg(file@),
{
    let rgb = yuyv_to_rgb(data);
    assert(3 * width * height == 3 * (width * height)) by (nonlinear_arith);
    frame_encoded(jpeg::encode_by_default(width, height, rgb))
}

// ---------------------------------------------------------------------------
// Laws
// ---------------------------------------------------------------------------

/// Frames are converted group by group, from left to right: the pixels of two frames one after
/// the other are those of the first and then those of the second.
#[verifier::spinoff_prover]
#[verifier::rlimit(40)]
pub proof fn frames_are_converted_in_the_order_of_the_data(a: Seq<u8>, b: Seq<u8>)
    requires
        a.len() % 4 == 0,
    ensures
        yuyv_rgb(a + b) == yuyv_rgb(a) + yuyv_rgb(b),
{
    let whole = yuyv_rgb(a + b);
    let parts = yuyv_rgb(a) + yuyv_rgb(b);
    let n = a.len() / 4;
    assert((a + b).len() / 4 == n + b.len() / 4);
    assert forall|k: int| 0 <= k < whole.len() implies whole[k] == parts[k] by {
        let pixel = k / 3;
        let group = 4 * (pixel / 2);
        if k < 6 * n {
            assert(pixel / 2 < n);
            assert(group + 4 <= a.len());
        } else {
            assert((k - 6 * n) / 3 == pixel - 2 * n);
            assert((k - 6 * n) % 3 == k % 3);
            assert((pixel - 2 * n) / 2 == pixel / 2 - n);
            assert((pixel - 2 * n) % 2 == pixel % 2);
        }
    }
    assert(whole =~= parts);
}

/// A group of four bytes becomes two pixels of three bytes, the first with the first brightness
/// and the second with the second, both with the colour that they share. Less than a group
/// becomes nothing.
pub proof fn a_group_becomes_two_pixels(y0: u8, u: u8, y1: u8, v: u8)
    ensures
        yuyv_rgb(seq![y0, u, y1, v]) == seq![
            red(y0, v),
            green(y0, u, v),
            blue(y0, u),
            red(y1, v),
            green(y1, u, v),
            blue(y1, u),
        ],
        forall|rest: Seq<u8>| rest.len() < 4 ==> #[trigger] yuyv_rgb(rest) == Seq::<u8>::empty(),
{
    let data = seq![y0, u, y1, v];
    let pixels = seq![
        red(y0, v),
        green(y0, u, v),
        blue(y0, u),
        red(y1, v),
        green(y1, u, v),
        blue(y1, u),
    ];
    assert forall|k: int| 0 <= k < 6 implies rgb_byte(data, k) == pixels[k] by {
        assert(k == 0 || k == 1 || k == 2 || k == 3 || k == 4 || k == 5);
    }
    assert(yuyv_rgb(data) =~= pixels);
    assert forall|rest: Seq<u8>| rest.len() < 4 implies #[trigger] yuyv_rgb(rest) == Seq::<
        u8,
    >::empty() by {
        assert(yuyv_rgb(rest) =~= Seq::<u8>::empty());
    }
}

/// The colours of a pixel lie within one step below the real colour, and at the end of the range
/// where that is outside: red is `y + 1.402 v`, green `y - 0.344136 u - 0.714136 v` and blue
/// `y + 1.772 u`, with `u` and `v` centred. Only green with one pair of `u` and `v` is one step
/// lower, for a small `y`.
pub proof fn colours_are_within_a_step_of_the_real_ones(y: u8, u: u8, v: u8)
    ensures
        ({
            let exact = 1000 * y + 1402 * v - 179456;
            let r = red(y, v) as int;
            &&& exact <= 0 ==> r == 0
            &&& exact >= 255000 ==> r == 255
            &&& 0 <= exact <= 255000 ==> 1000 * r <= exact < 1000 * r + 1000
        }),
        ({
            let exact = 1000000 * y - 344136 * u - 714136 * v + 135458816;
            let g = green(y, u, v) as int;
            &&& exact <= 0 ==> g == 0
            &&& exact >= 255000000 ==> g == 255
            &&& 0 <= exact <= 255000000 ==> {
                ||| 1000000 * g <= exact < 1000000 * g + 1000000
                ||| u == 228 && v == 28 && y < 28 && g == y + 36
            }
            &&& u == 228 && v == 28 && y < 28 ==> g == y + 36
        }),
        ({
            let exact = 1000 * y + 1772 * u - 226816;
            let b = blue(y, u) as int;
            &&& exact <= 0 ==> b == 0
            &&& exact >= 255000 ==> b == 255
            &&& 0 <= exact <= 255000 ==> 1000 * b <= exact < 1000 * b + 1000
        }),
{
}

/// A pixel without colour is grey: its three bytes are its brightness.
pub proof fn grey_stays_grey(y: u8)
    ensures
        red(y, 128) == y,
        green(y, 128, 128) == y,
        blue(y, 128) == y,
{
}

/// A frame becomes a file exactly where it has as many pixels as its size says and the encoder
/// takes that size: the file is that of its pixels. With too few pixels and with a size that the
/// encoder does not take, it has a status each.
pub proof fn a_frame_becomes_the_file_of_its_pixels(data: Seq<u8>, width: u32, height: u32)
    ensures
        2 * (data.len() / 4) < width * height ==> yuyv_jpeg(data, width, height) == Err::<
            Seq<u8>,
            CameraErrorView,
        >(CameraErrorView::SdkError(0xDEAD_0001)),
        2 * (data.len() / 4) >= width * height ==> match jpeg::jpeg_by_default(
            width,
            height,
            yuyv_rgb(data),
        ) {
            Ok(file) => yuyv_jpeg(data, width, height) == Ok::<Seq<u8>, CameraErrorView>(file),
            Err(_) => yuyv_jpeg(data, width, height) == Err::<Seq<u8>, CameraErrorView>(
                CameraErrorView::SdkError(0xDEAD_0002),
            ),
        },
{
}

}
