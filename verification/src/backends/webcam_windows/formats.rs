//! The video formats that a webcam offers.

use crate::order;
use crate::order::SortKey;
use crate::packed;
use crate::text;
use vstd::prelude::*;

verus! {

/// The encodings of a native media type that are told apart.
#[derive(Debug, Clone, Copy, PartialEq, Eq, Structural)]
pub enum Subtype {
    Mjpg,
    Yuy2,
    Other,
}

/// What a native media type of a video stream says of itself. Pairs of numbers are packed into
/// one, the first of them in the upper half.
#[derive(Debug, Clone, Copy, PartialEq, Eq)]
pub struct NativeMediaType {
    pub subtype: Subtype,
    /// The width and the height, where they are known.
    pub frame_size: Option<u64>,
    /// The frame rate as a fraction, where it is known.
    pub frame_rate: Option<u64>,
}

/// A format in which frames can be had.
#[derive(Debug, Clone, Copy, PartialEq, Eq, Structural)]
pub struct VideoFormatInfo {
    /// The index of the native media type.
    pub media_type: usize,
    pub is_mjpeg: bool,
    pub width: u32,
    pub height: u32,
    pub fps_num: u32,
    pub fps_den: u32,
}

// ---------------------------------------------------------------------------
// Packed attributes
// ---------------------------------------------------------------------------

/// `n`, or one in place of zero.
pub open spec fn at_least_one(n: u32) -> u32 {
    if n == 0 {
        1
    } else {
        n
    }
}

/// The width and the height in a frame size attribute, neither of them zero; 640 and 480 where
/// there is no such attribute.
pub open spec fn frame_size_in(packed: Option<u64>) -> (u32, u32) {
    match packed {
        Some(p) => (at_least_one(packed::upper_half(p)), at_least_one(packed::lower_half(p))),
        None => (640, 480),
    }
}

/// Extracts the width and the height from a frame size attribute.
pub fn frame_size(packed: Option<u64>) -> (size: (u32, u32))
    ensures
        size == frame_size_in(packed),
{
    match packed {
        Some(p) => {
            let (width, height) = packed::unpacked(p);
            let width: u32 = if width == 0 {
                1
            } else {
                width
            };
            let height: u32 = if height == 0 {
                1
            } else {
                height
            };
            (width, height)
        },
        None => (640, 480),
    }
}

// ---------------------------------------------------------------------------
// Labels
// ---------------------------------------------------------------------------

/// The integer closest to `n / d`; of two that are equally close, the even one.
pub open spec fn rounded_quotient(n: nat, d: nat) -> nat {
    let quotient = n / d;
    let remainder = n % d;
    if 2 * remainder < d {
        quotient
    } else if 2 * remainder > d {
        quotient + 1
    } else {
        quotient + quotient % 2
    }
}

/// The frame rate as it stands in a label: nothing where the fraction has no value.
pub open spec fn rate_label(fps_num: u32, fps_den: u32) -> Seq<char> {
    if fps_den > 0 {
        " "@ + text::decimal(rounded_quotient(fps_num as nat, fps_den as nat)) + "fps"@
    } else {
        Seq::empty()
    }
}

impl VideoFormatInfo {
    /// What a format is called, such as `1920×1080 MJPEG 30fps`.
    pub open spec fn label_text(self) -> Seq<char> {
        text::decimal(self.width as nat) + "×"@ + text::decimal(self.height as nat) + (
        if self.is_mjpeg {
            " MJPEG"@
        } else {
            " YUV"@
        }) + rate_label(self.fps_num, self.fps_den)
    }

    /// What the format is called.
    pub fn label(&self) -> (label: String)
        ensures
            label@ == self.label_text(),
    {
        let size = text::joined3(
            text::decimal_text(self.width as u64).as_str(),
            "×",
            text::decimal_text(self.height as u64).as_str(),
        );
        let codec = if self.is_mjpeg {
            " MJPEG"
        } else {
            " YUV"
        };
        let fps = if self.fps_den > 0 {
            let rate: u64 = rounded(self.fps_num, self.fps_den);
            text::joined3(" ", text::decimal_text(rate).as_str(), "fps")
        } else {
            String::new()
        };
        text::joined3(size.as_str(), codec, fps.as_str())
    }
}

fn rounded(n: u32, d: u32) -> (r: u64)
    requires
        d > 0,
    ensures
        r == rounded_quotient(n as nat, d as nat),
{
    let quotient: u64 = (n / d) as u64;
    let remainder: u64 = (n % d) as u64;
    assert(remainder < d);
    if 2 * remainder < d as u64 {
        quotient
    } else if 2 * remainder > d as u64 {
        quotient + 1
    } else {
        quotient + quotient % 2
    }
}

// ---------------------------------------------------------------------------
// Enumeration
// ---------------------------------------------------------------------------

/// The format of the native media type at `index`, where frames of it can be used.
pub open spec fn format_of(native: NativeMediaType, index: int) -> Option<VideoFormatInfo> {
    if native.subtype == Subtype::Other {
        None
    } else {
        let rate = match native.frame_rate {
            Some(packed) => packed,
            None => 0u64,
        };
        Some(
            VideoFormatInfo {
                media_type: index as usize,
                is_mjpeg: native.subtype == Subtype::Mjpg,
                width: frame_size_in(native.frame_size).0,
                height: frame_size_in(native.frame_size).1,
                fps_num: packed::upper_half(rate),
                fps_den: packed::lower_half(rate),
            },
        )
    }
}

/// Whether two formats agree in codec, size and frame rate.
pub open spec fn same_format(a: VideoFormatInfo, b: VideoFormatInfo) -> bool {
    &&& a.is_mjpeg == b.is_mjpeg
    &&& a.width == b.width
    &&& a.height == b.height
    &&& a.fps_num == b.fps_num
    &&& a.fps_den == b.fps_den
}

/// Whether `format` agrees with one of `formats`.
pub open spec fn is_among(formats: Seq<VideoFormatInfo>, format: VideoFormatInfo) -> bool {
    exists|i: int| 0 <= i < formats.len() && #[trigger] same_format(formats[i], format)
}

/// The formats of the native media types in the order of their indices, the first of those that
/// agree.
pub open spec fn formats_in(natives: Seq<NativeMediaType>) -> Seq<VideoFormatInfo>
    decreases natives.len(),
{
    if natives.len() == 0 {
        Seq::empty()
    } else {
        let before = formats_in(natives.drop_last());
        match format_of(natives.last(), natives.len() - 1) {
            Some(format) if !is_among(before, format) => before.push(format),
            _ => before,
        }
    }
}

/// By what formats are sorted: the number of pixels, then the codec, then the frame rate.
pub open spec fn sort_key(format: VideoFormatInfo) -> SortKey {
    SortKey {
        area: (format.width * format.height) as u64,
        is_mjpeg: format.is_mjpeg,
        rate_num: format.fps_num,
        rate_den: format.fps_den,
    }
}

/// The keys of the formats.
pub open spec fn sort_keys(formats: Seq<VideoFormatInfo>) -> Seq<SortKey> {
    formats.map_values(|f: VideoFormatInfo| sort_key(f))
}

/// Whether `order` is the sorted order of `formats`.
pub open spec fn orders(formats: Seq<VideoFormatInfo>, order: Seq<int>) -> bool {
    order::is_sorted_order(sort_keys(formats), order)
}

/// Whether `sorted` holds the formats of `formats` in their sorted order: the resolution
/// descending, then MJPEG before YUV, then the frame rate descending, then as they came.
pub open spec fn is_sorted_from(
    formats: Seq<VideoFormatInfo>,
    sorted: Seq<VideoFormatInfo>,
) -> bool {
    exists|order: Seq<int>|
        #[trigger] orders(formats, order) && sorted == order::reordered(formats, order)
}

fn key_of(format: VideoFormatInfo) -> (key: SortKey)
    ensures
        key == sort_key(format),
{
    assert(format.width * format.height <= 0xFFFF_FFFF * 0xFFFF_FFFF) by (nonlinear_arith)
        requires
            0 <= format.width <= 0xFFFF_FFFF,
            0 <= format.height <= 0xFFFF_FFFF,
    ;
    SortKey {
        area: format.width as u64 * format.height as u64,
        is_mjpeg: format.is_mjpeg,
        rate_num: format.fps_num,
        rate_den: format.fps_den,
    }
}

fn occurs(formats: &Vec<VideoFormatInfo>, format: VideoFormatInfo) -> (yes: bool)
    ensures
        yes == is_among(formats@, format),
{
    let mut i: usize = 0;
    while i < formats.len()
        invariant
            i <= formats@.len(),
            forall|j: int| 0 <= j < i ==> !#[trigger] same_format(formats@[j], format),
        decreases formats@.len() - i,
    {
        let f = formats[i];
        if f.is_mjpeg == format.is_mjpeg && f.width == format.width && f.height == format.height
            && f.fps_num == format.fps_num && f.fps_den == format.fps_den {
            assert(same_format(formats@[i as int], format));
            return true;
        }
        i += 1;
    }
    false
}

fn usable_format(native: NativeMediaType, index: usize) -> (format: Option<VideoFormatInfo>)
    ensures
        format == format_of(native, index as int),
{
    if native.subtype == Subtype::Other {
        return None;
    }
    let (width, height) = frame_size(native.frame_size);
    let (fps_num, fps_den) = match native.frame_rate {
        Some(rate) => packed::unpacked(rate),
        None => packed::unpacked(0),
    };
    Some(
        VideoFormatInfo {
            media_type: index,
            is_mjpeg: native.subtype == Subtype::Mjpg,
            width,
            height,
            fps_num,
            fps_den,
        },
    )
}

/// Lists all MJPEG and YUY2 formats of a stream, each once, in their sorted order.
pub fn enumerate_video_formats(natives: &Vec<NativeMediaType>) -> (formats: Vec<VideoFormatInfo>)
    ensures
        is_sorted_from(formats_in(natives@), formats@),
        is_descending(formats@),
{
    let mut found: Vec<VideoFormatInfo> = Vec::new();
    let mut keys: Vec<SortKey> = Vec::new();
    let mut i: usize = 0;
    assert(natives@.take(0) =~= Seq::empty());
    while i < natives.len()
        invariant
            i <= natives@.len(),
            found@ == formats_in(natives@.take(i as int)),
            keys@ == sort_keys(found@),
        decreases natives@.len() - i,
    {
        assert(natives@.take(i + 1).drop_last() =~= natives@.take(i as int));
        if let Some(format) = usable_format(natives[i], i) {
            if !occurs(&found, format) {
                found.push(format);
                keys.push(key_of(format));
                assert(keys@ =~= sort_keys(found@));
            }
        }
        i += 1;
    }
    assert(natives@.take(i as int) =~= natives@);
    let order = order::sorted_order(&keys);
    let mut formats: Vec<VideoFormatInfo> = Vec::new();
    let ghost positions = order::positions(order@);
    let mut a: usize = 0;
    while a < order.len()
        invariant
            a <= order@.len(),
            positions == order::positions(order@),
            order::is_sorted_order(sort_keys(found@), positions),
            formats@ == order::reordered(found@, positions).take(a as int),
        decreases order@.len() - a,
    {
        assert(0 <= positions[a as int] < found@.len());
        formats.push(found[order[a]]);
        a += 1;
        assert(formats@ =~= order::reordered(found@, positions).take(a as int));
    }
    assert(formats@ =~= order::reordered(found@, positions));
    assert(orders(found@, positions));
    proof {
        listed_formats_are_sorted(natives@, formats@);
    }
    formats
}

/// The number of pixels of a frame.
pub open spec fn area(format: VideoFormatInfo) -> int {
    format.width * format.height
}

/// Whether `a` has at least the frame rate of `b`, as fractions; a rate without a denominator
/// counts as zero.
pub open spec fn is_as_fast(a: VideoFormatInfo, b: VideoFormatInfo) -> bool {
    !order::is_faster(b.fps_num, b.fps_den, a.fps_num, a.fps_den)
}

/// Whether a list is sorted: the resolution descending, then MJPEG before YUV, then the frame
/// rate descending.
pub open spec fn is_descending(formats: Seq<VideoFormatInfo>) -> bool {
    forall|i: int, j: int|
        0 <= i < j < formats.len() ==> {
            let (a, b) = (#[trigger] formats[i], #[trigger] formats[j]);
            ||| area(a) > area(b)
            ||| area(a) == area(b) && a.is_mjpeg && !b.is_mjpeg
            ||| area(a) == area(b) && a.is_mjpeg == b.is_mjpeg && is_as_fast(a, b)
        }
}

/// The listed formats are sorted: the resolution descending, then MJPEG before YUV, then the
/// frame rate descending.
pub proof fn listed_formats_are_sorted(
    natives: Seq<NativeMediaType>,
    formats: Seq<VideoFormatInfo>,
)
    requires
        is_sorted_from(formats_in(natives), formats),
    ensures
        is_descending(formats),
{
    let found = formats_in(natives);
    let order = choose|order: Seq<int>|
        #[trigger] orders(found, order) && formats == order::reordered(found, order);
    assert forall|i: int, j: int| 0 <= i < j < formats.len() implies {
        let (a, b) = (#[trigger] formats[i], #[trigger] formats[j]);
        ||| area(a) > area(b)
        ||| area(a) == area(b) && a.is_mjpeg && !b.is_mjpeg
        ||| area(a) == area(b) && a.is_mjpeg == b.is_mjpeg && is_as_fast(a, b)
    } by {
        assert(order::goes_before(sort_keys(found), order[i], order[j]));
        lemma_area_fits(formats[i]);
        lemma_area_fits(formats[j]);
    }
}

/// Whether `found` lists the formats of `natives`: every format in it is that of the native
/// media type that it names, no two of them agree, and every usable native media type agrees
/// with one of them.
pub open spec fn lists_each_once(
    natives: Seq<NativeMediaType>,
    found: Seq<VideoFormatInfo>,
) -> bool {
    &&& forall|i: int|
        0 <= i < found.len() ==> {
            let f = #[trigger] found[i];
            &&& 0 <= f.media_type < natives.len()
            &&& format_of(natives[f.media_type as int], f.media_type as int) == Some(f)
        }
    &&& forall|i: int, j: int|
        0 <= i < j < found.len() ==> !same_format(#[trigger] found[i], #[trigger] found[j])
    &&& forall|n: int|
        0 <= n < natives.len() ==> (format_of(#[trigger] natives[n], n) matches Some(f)
            ==> is_among(found, f))
}

#[verifier::spinoff_prover]
#[verifier::rlimit(40)]
proof fn lemma_found(natives: Seq<NativeMediaType>)
    requires
        natives.len() <= usize::MAX,
    ensures
        lists_each_once(natives, formats_in(natives)),
    decreases natives.len(),
{
    if natives.len() > 0 {
        let front = natives.drop_last();
        let before = formats_in(front);
        let found = formats_in(natives);
        lemma_found(front);
        assert forall|i: int| 0 <= i < found.len() implies {
            let f = #[trigger] found[i];
            &&& 0 <= f.media_type < natives.len()
            &&& format_of(natives[f.media_type as int], f.media_type as int) == Some(f)
        } by {
            if i < before.len() {
                assert(found[i] == before[i]);
                assert(front[before[i].media_type as int] == natives[before[i].media_type as int]);
            }
        }
        assert forall|i: int, j: int| 0 <= i < j < found.len() implies !same_format(
            #[trigger] found[i],
            #[trigger] found[j],
        ) by {
            assert(found[i] == before[i]);
            if j < before.len() {
                assert(found[j] == before[j]);
            }
        }
        assert forall|n: int| 0 <= n < natives.len() implies (format_of(
            #[trigger] natives[n],
            n,
        ) matches Some(f) ==> is_among(found, f)) by {
            match format_of(natives[n], n) {
                Some(f) => {
                    if n < front.len() {
                        assert(front[n] == natives[n]);
                        assert(is_among(before, f));
                    }
                    if is_among(before, f) {
                        let i = choose|i: int|
                            0 <= i < before.len() && #[trigger] same_format(before[i], f);
                        assert(same_format(found[i], f));
                    } else {
                        assert(same_format(found[before.len() as int], f));
                    }
                },
                None => {},
            }
        }
    }
}

/// The listed formats are those of the native media types, each once.
pub proof fn listed_formats_are_the_native_ones(
    natives: Seq<NativeMediaType>,
    formats: Seq<VideoFormatInfo>,
)
    requires
        natives.len() <= usize::MAX,
        is_sorted_from(formats_in(natives), formats),
    ensures
        lists_each_once(natives, formats),
{
    let found = formats_in(natives);
    lemma_found(natives);
    let order = choose|order: Seq<int>|
        #[trigger] orders(found, order) && formats == order::reordered(found, order);
    let keys = sort_keys(found);
    order::lemma_order_is_injective(keys, order);
    assert forall|i: int| 0 <= i < formats.len() implies {
        let f = #[trigger] formats[i];
        &&& 0 <= f.media_type < natives.len()
        &&& format_of(natives[f.media_type as int], f.media_type as int) == Some(f)
    } by {
        assert(formats[i] == found[order[i]]);
    }
    assert forall|i: int, j: int| 0 <= i < j < formats.len() implies !same_format(
        #[trigger] formats[i],
        #[trigger] formats[j],
    ) by {
        assert(order[i] != order[j]);
        assert(formats[i] == found[order[i]] && formats[j] == found[order[j]]);
        if order[i] > order[j] {
            assert(!same_format(found[order[j]], found[order[i]]));
        }
    }
    assert forall|n: int| 0 <= n < natives.len() implies (format_of(
        #[trigger] natives[n],
        n,
    ) matches Some(f) ==> is_among(formats, f)) by {
        match format_of(natives[n], n) {
            Some(f) => {
                let i = choose|i: int|
                    0 <= i < found.len() && #[trigger] same_format(found[i], f);
                order::lemma_order_is_surjective(keys, order, i);
                let a = order.index_of(i);
                assert(formats[a] == found[i]);
                assert(same_format(formats[a], f));
            },
            None => {},
        }
    }
}

// ---------------------------------------------------------------------------
// Choice
// ---------------------------------------------------------------------------

/// Whether `index` is that of the first MJPEG format, or zero where there is none.
pub open spec fn is_best_format(formats: Seq<VideoFormatInfo>, index: int) -> bool {
    ||| {
        &&& 0 <= index < formats.len()
        &&& formats[index].is_mjpeg
        &&& forall|j: int| 0 <= j < index ==> !(#[trigger] formats[j]).is_mjpeg
    }
    ||| {
        &&& index == 0
        &&& forall|j: int| 0 <= j < formats.len() ==> !(#[trigger] formats[j]).is_mjpeg
    }
}

/// Picks the first MJPEG format of a list, or the first format where there is none.
pub fn select_best_format_index(formats: &[VideoFormatInfo]) -> (index: usize)
    ensures
        is_best_format(formats@, index as int),
{
    let mut i: usize = 0;
    while i < formats.len()
        invariant
            i <= formats@.len(),
            forall|j: int| 0 <= j < i ==> !(#[trigger] formats@[j]).is_mjpeg,
        decreases formats@.len() - i,
    {
        if formats[i].is_mjpeg {
            return i;
        }
        i += 1;
    }
    0
}

/// Of the listed formats the one that is picked has the highest resolution among the MJPEG
/// formats or, where there are none, among all formats.
pub proof fn best_format_has_the_highest_resolution(
    natives: Seq<NativeMediaType>,
    formats: Seq<VideoFormatInfo>,
    best: int,
)
    requires
        is_sorted_from(formats_in(natives), formats),
        is_best_format(formats, best),
        formats.len() > 0,
    ensures
        0 <= best < formats.len(),
        forall|i: int|
            0 <= i < formats.len() && (formats[best].is_mjpeg ==> formats[i].is_mjpeg) ==> (
            #[trigger] formats[i]).width * formats[i].height <= formats[best].width
                * formats[best].height,
        !formats[best].is_mjpeg ==> forall|i: int|
            0 <= i < formats.len() ==> !(#[trigger] formats[i]).is_mjpeg,
{
    listed_formats_are_sorted(natives, formats);
    assert forall|i: int|
        0 <= i < formats.len() && (formats[best].is_mjpeg ==> formats[i].is_mjpeg) implies (
    #[trigger] formats[i]).width * formats[i].height <= formats[best].width
        * formats[best].height by {
        if best < i {
            assert(area(formats[best]) >= area(formats[i]));
        }
    }
}

proof fn lemma_area_fits(format: VideoFormatInfo)
    ensures
        sort_key(format).area == format.width * format.height,
{
    assert(0 <= format.width * format.height <= 0xFFFF_FFFF * 0xFFFF_FFFF) by (nonlinear_arith)
        requires
            0 <= format.width <= 0xFFFF_FFFF,
            0 <= format.height <= 0xFFFF_FFFF,
    ;
}

// ---------------------------------------------------------------------------
// Laws on the fields
// ---------------------------------------------------------------------------

proof fn lemma_among(formats: Seq<VideoFormatInfo>, format: VideoFormatInfo)
    requires
        is_among(formats, format),
    ensures
        exists|i: int|
            0 <= i < formats.len() && {
                let f = #[trigger] formats[i];
                &&& f.is_mjpeg == format.is_mjpeg
                &&& f.width == format.width
                &&& f.height == format.height
                &&& f.fps_num == format.fps_num
                &&& f.fps_den == format.fps_den
            },
{
    let i = choose|i: int| 0 <= i < formats.len() && #[trigger] same_format(formats[i], format);
    assert(formats[i].width == format.width);
}

/// Every MJPEG or YUY2 media type is listed, with its own codec, size and frame rate. Sides that
/// are zero count as one, a missing size as 640 by 480, and a missing rate as zero of zero.
#[verifier::spinoff_prover]
#[verifier::rlimit(40)]
pub proof fn every_usable_type_is_listed_by_its_fields(
    natives: Seq<NativeMediaType>,
    formats: Seq<VideoFormatInfo>,
    n: int,
)
    requires
        natives.len() <= usize::MAX,
        is_sorted_from(formats_in(natives), formats),
        0 <= n < natives.len(),
        natives[n].subtype != Subtype::Other,
    ensures
        exists|i: int|
            0 <= i < formats.len() && {
                let f = #[trigger] formats[i];
                &&& f.is_mjpeg == (natives[n].subtype == Subtype::Mjpg)
                &&& match natives[n].frame_size {
                    Some(size) => {
                        let (width, height) = (size / 0x1_0000_0000, size % 0x1_0000_0000);
                        &&& f.width == width || (f.width == 1 && width == 0)
                        &&& f.height == height || (f.height == 1 && height == 0)
                        &&& f.width > 0 && f.height > 0
                    },
                    None => f.width == 640 && f.height == 480,
                }
                &&& match natives[n].frame_rate {
                    Some(rate) => f.fps_num * 0x1_0000_0000 + f.fps_den == rate,
                    None => f.fps_num == 0 && f.fps_den == 0,
                }
            },
{
    listed_formats_are_the_native_ones(natives, formats);
    let format = format_of(natives[n], n)->Some_0;
    assert(format_of(natives[n], n) is Some);
    lemma_among(formats, format);
    let i = choose|i: int|
        0 <= i < formats.len() && {
            let f = #[trigger] formats[i];
            &&& f.is_mjpeg == format.is_mjpeg
            &&& f.width == format.width
            &&& f.height == format.height
            &&& f.fps_num == format.fps_num
            &&& f.fps_den == format.fps_den
        };
    assert(formats[i].width == format.width);
    if let Some(rate) = natives[n].frame_rate {
        packed::halves_make_up_the_whole(rate);
    }
}

/// Every listed format is that of the media type that it names, which is the first one with its
/// codec, size and frame rate; no format is listed twice.
#[verifier::spinoff_prover]
#[verifier::rlimit(40)]
pub proof fn every_listed_format_is_that_of_the_type_it_names(
    natives: Seq<NativeMediaType>,
    formats: Seq<VideoFormatInfo>,
)
    requires
        natives.len() <= usize::MAX,
        is_sorted_from(formats_in(natives), formats),
    ensures
        forall|i: int|
            0 <= i < formats.len() ==> {
                let f = #[trigger] formats[i];
                let native = natives[f.media_type as int];
                &&& f.media_type < natives.len()
                &&& native.subtype == Subtype::Mjpg || native.subtype == Subtype::Yuy2
                &&& f.is_mjpeg == (native.subtype == Subtype::Mjpg)
                &&& match native.frame_size {
                    Some(size) => {
                        let (width, height) = (size / 0x1_0000_0000, size % 0x1_0000_0000);
                        &&& f.width == width || (f.width == 1 && width == 0)
                        &&& f.height == height || (f.height == 1 && height == 0)
                        &&& f.width > 0 && f.height > 0
                    },
                    None => f.width == 640 && f.height == 480,
                }
                &&& match native.frame_rate {
                    Some(rate) => f.fps_num * 0x1_0000_0000 + f.fps_den == rate,
                    None => f.fps_num == 0 && f.fps_den == 0,
                }
            },
        forall|i: int, n: int|
            0 <= i < formats.len() && 0 <= n < (#[trigger] formats[i]).media_type ==> {
                let f = natives[formats[i].media_type as int];
                let other = #[trigger] natives[n];
                ||| other.subtype != f.subtype
                ||| other.frame_size != f.frame_size
                ||| other.frame_rate != f.frame_rate
            },
        forall|i: int, j: int|
            0 <= i < j < formats.len() ==> {
                let (a, b) = (#[trigger] formats[i], #[trigger] formats[j]);
                ||| a.is_mjpeg != b.is_mjpeg
                ||| a.width != b.width
                ||| a.height != b.height
                ||| a.fps_num != b.fps_num
                ||| a.fps_den != b.fps_den
            },
{
    listed_formats_are_the_native_ones(natives, formats);
    assert forall|i: int| 0 <= i < formats.len() implies match natives[(
    #[trigger] formats[i]).media_type as int].frame_rate {
        Some(rate) => formats[i].fps_num * 0x1_0000_0000 + formats[i].fps_den == rate,
        None => formats[i].fps_num == 0 && formats[i].fps_den == 0,
    } by {
        if let Some(rate) = natives[formats[i].media_type as int].frame_rate {
            packed::halves_make_up_the_whole(rate);
        }
    }
    lemma_found_first(natives);
    let found = formats_in(natives);
    let order = choose|order: Seq<int>|
        #[trigger] orders(found, order) && formats == order::reordered(found, order);
    assert forall|i: int, n: int|
        0 <= i < formats.len() && 0 <= n < (#[trigger] formats[i]).media_type implies {
        let f = natives[formats[i].media_type as int];
        let other = #[trigger] natives[n];
        ||| other.subtype != f.subtype
        ||| other.frame_size != f.frame_size
        ||| other.frame_rate != f.frame_rate
    } by {
        assert(formats[i] == found[order[i]]);
        assert(format_of(natives[n], n) matches Some(g) ==> !same_format(g, found[order[i]]));
    }
}

#[verifier::spinoff_prover]
#[verifier::rlimit(40)]
proof fn lemma_found_first(natives: Seq<NativeMediaType>)
    requires
        natives.len() <= usize::MAX,
    ensures
        forall|i: int, n: int|
            0 <= i < formats_in(natives).len() && 0 <= n < (
            #[trigger] formats_in(natives)[i]).media_type ==> (format_of(
                #[trigger] natives[n],
                n,
            ) matches Some(g) ==> !same_format(g, formats_in(natives)[i])),
    decreases natives.len(),
{
    if natives.len() > 0 {
        let front = natives.drop_last();
        let before = formats_in(front);
        let found = formats_in(natives);
        lemma_found_first(front);
        lemma_found(front);
        assert forall|i: int, n: int|
            0 <= i < found.len() && 0 <= n < (#[trigger] found[i]).media_type implies (format_of(
            #[trigger] natives[n],
            n,
        ) matches Some(g) ==> !same_format(g, found[i])) by {
            if i < before.len() {
                assert(found[i] == before[i]);
                assert(0 <= before[i].media_type < front.len());
                assert(front[n] == natives[n]);
            } else {
                assert(n < front.len());
                assert(front[n] == natives[n]);
                if let Some(g) = format_of(natives[n], n) {
                    assert(is_among(before, g));
                    let k = choose|k: int|
                        0 <= k < before.len() && #[trigger] same_format(before[k], g);
                    if same_format(g, found[i]) {
                        assert(same_format(before[k], found[i]));
                    }
                }
            }
        }
    }
}

/// The listed formats come with the most pixels first, then MJPEG before YUV, then the highest
/// frame rate first, and otherwise in the order of their media types. Rates are compared as
/// fractions, and one without a denominator is as slow as can be.
#[verifier::spinoff_prover]
#[verifier::rlimit(40)]
pub proof fn listed_formats_are_in_their_order_by_their_fields(
    natives: Seq<NativeMediaType>,
    formats: Seq<VideoFormatInfo>,
)
    requires
        natives.len() <= usize::MAX,
        is_sorted_from(formats_in(natives), formats),
    ensures
        forall|i: int, j: int|
            0 <= i < j < formats.len() ==> {
                let (a, b) = (#[trigger] formats[i], #[trigger] formats[j]);
                &&& a.width * a.height >= b.width * b.height
                &&& a.width * a.height == b.width * b.height ==> {
                    &&& b.is_mjpeg ==> a.is_mjpeg
                    &&& a.is_mjpeg == b.is_mjpeg ==> {
                        &&& a.fps_den > 0 && b.fps_den > 0 ==> a.fps_num * b.fps_den >= b.fps_num
                            * a.fps_den
                        &&& a.fps_den == 0 && b.fps_den > 0 ==> b.fps_num == 0
                        &&& a.fps_den > 0 && b.fps_den > 0 && a.fps_num * b.fps_den == b.fps_num
                            * a.fps_den ==> a.media_type < b.media_type
                        &&& a.fps_den == 0 && b.fps_den == 0 ==> a.media_type < b.media_type
                    }
                }
            },
{
    let found = formats_in(natives);
    lemma_found_ascends(natives);
    let order = choose|order: Seq<int>|
        #[trigger] orders(found, order) && formats == order::reordered(found, order);
    assert forall|i: int, j: int| 0 <= i < j < formats.len() implies {
        let (a, b) = (#[trigger] formats[i], #[trigger] formats[j]);
        &&& a.width * a.height >= b.width * b.height
        &&& a.width * a.height == b.width * b.height ==> {
            &&& b.is_mjpeg ==> a.is_mjpeg
            &&& a.is_mjpeg == b.is_mjpeg ==> {
                &&& a.fps_den > 0 && b.fps_den > 0 ==> a.fps_num * b.fps_den >= b.fps_num
                    * a.fps_den
                &&& a.fps_den == 0 && b.fps_den > 0 ==> b.fps_num == 0
                &&& a.fps_den > 0 && b.fps_den > 0 && a.fps_num * b.fps_den == b.fps_num
                    * a.fps_den ==> a.media_type < b.media_type
                &&& a.fps_den == 0 && b.fps_den == 0 ==> a.media_type < b.media_type
            }
        }
    } by {
        let (a, b) = (formats[i], formats[j]);
        assert(order::goes_before(sort_keys(found), order[i], order[j]));
        lemma_area_fits(a);
        lemma_area_fits(b);
        assert(order[i] < order[j] ==> found[order[i]].media_type < found[order[j]].media_type);
        assert(a.fps_den == 0 && b.fps_den > 0 ==> 0 * b.fps_den == 0 && b.fps_num * 1 == b.fps_num);
    }
}

proof fn lemma_found_ascends(natives: Seq<NativeMediaType>)
    requires
        natives.len() <= usize::MAX,
    ensures
        forall|i: int, j: int|
            0 <= i < j < formats_in(natives).len() ==> (
            #[trigger] formats_in(natives)[i]).media_type < (
            #[trigger] formats_in(natives)[j]).media_type,
    decreases natives.len(),
{
    if natives.len() > 0 {
        let front = natives.drop_last();
        let before = formats_in(front);
        let found = formats_in(natives);
        lemma_found_ascends(front);
        lemma_found(front);
        assert forall|i: int, j: int| 0 <= i < j < found.len() implies (
        #[trigger] found[i]).media_type < (#[trigger] found[j]).media_type by {
            assert(found[i] == before[i]);
            assert(before[i].media_type < front.len());
            if j < before.len() {
                assert(found[j] == before[j]);
            }
        }
    }
}

/// A label says the size, the codec and the frame rate: the width and the height in base ten with
/// a cross between them, then the codec, then the closest whole number of frames in a second,
/// where the rate has a denominator. Of two that are equally close it is the even one.
pub proof fn a_label_says_what_the_format_is(format: VideoFormatInfo, rate: nat)
    requires
        format.fps_den > 0 ==> {
            &&& 2 * format.fps_num - format.fps_den <= 2 * rate * format.fps_den <= 2
                * format.fps_num + format.fps_den
            &&& (2 * rate * format.fps_den == 2 * format.fps_num - format.fps_den || 2 * rate
                * format.fps_den == 2 * format.fps_num + format.fps_den) ==> rate % 2 == 0
        },
    ensures
        format.label_text() == text::decimal(format.width as nat) + "×"@ + text::decimal(
            format.height as nat,
        ) + (if format.is_mjpeg {
            " MJPEG"@
        } else {
            " YUV"@
        }) + (if format.fps_den > 0 {
            " "@ + text::decimal(rate) + "fps"@
        } else {
            Seq::empty()
        }),
{
    if format.fps_den > 0 {
        lemma_rounded(format.fps_num as nat, format.fps_den as nat, rate);
    }
}

proof fn lemma_rounded(n: nat, d: nat, rate: nat)
    requires
        d > 0,
        2 * n - d <= 2 * rate * d <= 2 * n + d,
        (2 * rate * d == 2 * n - d || 2 * rate * d == 2 * n + d) ==> rate % 2 == 0,
    ensures
        rounded_quotient(n, d) == rate,
{
    let q = n / d;
    let r = n % d;
    assert(n == q * d + r && 0 <= r < d) by (nonlinear_arith)
        requires
            d > 0,
            q == n / d,
            r == n % d,
    ;
    let x = rate - q;
    assert(2 * rate * d == 2 * (q * d) + 2 * (x * d)) by (nonlinear_arith)
        requires
            x == rate - q,
    ;
    assert(0 <= x <= 1) by (nonlinear_arith)
        requires
            d > 0,
            0 <= r < d,
            2 * r - d <= 2 * (x * d) <= 2 * r + d,
    ;
    if x == 0 {
        assert(x * d == 0) by (nonlinear_arith)
            requires
                x == 0,
        ;
    } else {
        assert(x * d == d) by (nonlinear_arith)
            requires
                x == 1,
        ;
    }
}

/// A webcam has formats exactly where one of its media types is MJPEG or YUY2.
#[verifier::spinoff_prover]
#[verifier::rlimit(40)]
pub proof fn a_webcam_with_a_usable_type_has_formats(natives: Seq<NativeMediaType>)
    ensures
        formats_in(natives).len() > 0 <==> exists|n: int|
            0 <= n < natives.len() && ((#[trigger] natives[n]).subtype == Subtype::Mjpg
                || natives[n].subtype == Subtype::Yuy2),
    decreases natives.len(),
{
    if natives.len() > 0 {
        let front = natives.drop_last();
        let last = natives.len() - 1;
        a_webcam_with_a_usable_type_has_formats(front);
        assert forall|n: int| 0 <= n < front.len() implies front[n] == #[trigger] natives[n] by {}
        if formats_in(front).len() > 0 {
            let n = choose|n: int|
                0 <= n < front.len() && ((#[trigger] front[n]).subtype == Subtype::Mjpg
                    || front[n].subtype == Subtype::Yuy2);
            assert(natives[n].subtype == Subtype::Mjpg || natives[n].subtype == Subtype::Yuy2);
        }
        if natives[last].subtype != Subtype::Other {
            assert(formats_in(front).len() == 0 ==> !is_among(
                formats_in(front),
                format_of(natives[last], last)->Some_0,
            ));
            assert(natives[last].subtype == Subtype::Mjpg || natives[last].subtype
                == Subtype::Yuy2);
        } else {
            if exists|n: int|
                0 <= n < natives.len() && ((#[trigger] natives[n]).subtype == Subtype::Mjpg
                    || natives[n].subtype == Subtype::Yuy2) {
                let n = choose|n: int|
                    0 <= n < natives.len() && ((#[trigger] natives[n]).subtype == Subtype::Mjpg
                        || natives[n].subtype == Subtype::Yuy2);
                assert(front[n].subtype == natives[n].subtype);
            }
        }
    }
}

/// The format that is picked is the first MJPEG one, and the first of all where there is none.
pub proof fn the_first_mjpeg_format_is_picked(formats: Seq<VideoFormatInfo>, index: int)
    ensures
        is_best_format(formats, index) <==> {
            ||| {
                &&& 0 <= index < formats.len()
                &&& formats[index].is_mjpeg
                &&& forall|j: int| 0 <= j < formats.len() && formats[j].is_mjpeg ==> index <= j
            }
            ||| index == 0 && forall|j: int| 0 <= j < formats.len() ==> !formats[j].is_mjpeg
        },
{
    if 0 <= index < formats.len() && formats[index].is_mjpeg && forall|j: int|
        0 <= j < formats.len() && formats[j].is_mjpeg ==> index <= j {
        assert forall|j: int| 0 <= j < index implies !(#[trigger] formats[j]).is_mjpeg by {}
    }
}

}
