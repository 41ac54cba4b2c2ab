//! The modes in which a camera delivers MJPG frames.

use crate::camera::CameraResolution;
use crate::order;
use crate::order::SortKey;
use crate::packed;
use vstd::prelude::*;

verus! {

/// The width that a preview has unless another one is asked for.
pub const DEFAULT_PREVIEW_WIDTH: u32 = 1920;

/// The height that a preview has unless another one is asked for.
pub const DEFAULT_PREVIEW_HEIGHT: u32 = 1080;

/// What a native media type of a stream says of itself: whether it is MJPG, and its packed
/// frame size, where it is known.
#[derive(Debug, Clone, Copy, PartialEq, Eq)]
pub struct NativeType {
    pub is_mjpg: bool,
    pub frame_size: Option<u64>,
}

/// A native media type in which frames can be had.
#[derive(Debug, Clone, Copy, PartialEq, Eq, Structural)]
pub struct NativeMode {
    /// The index of the native media type.
    pub index: usize,
    pub width: u32,
    pub height: u32,
}

/// What a mode is chosen by where the one that is asked for is not there.
#[derive(Debug, Clone, Copy, PartialEq, Eq, Structural)]
pub enum SelectionPolicy {
    Prefer1080p,
    PreferMaximum,
}

impl NativeMode {
    pub open spec fn resolution(self) -> CameraResolution {
        CameraResolution { width: self.width, height: self.height }
    }
}

/// The number of pixels of a frame.
pub open spec fn area(r: CameraResolution) -> int {
    r.width * r.height
}

/// The default size of a preview.
pub open spec fn default_preview() -> CameraResolution {
    CameraResolution { width: DEFAULT_PREVIEW_WIDTH, height: DEFAULT_PREVIEW_HEIGHT }
}

// ---------------------------------------------------------------------------
// Enumeration
// ---------------------------------------------------------------------------

/// The mode of the native media type at `index`, where it is MJPG and has a size.
pub open spec fn mode_of(native: NativeType, index: int) -> Option<NativeMode> {
    match native.frame_size {
        Some(size) if native.is_mjpg => Some(
            NativeMode {
                index: index as usize,
                width: packed::upper_half(size),
                height: packed::lower_half(size),
            },
        ),
        _ => None,
    }
}

/// The modes of a stream in the order of their indices.
pub open spec fn modes_in(natives: Seq<NativeType>) -> Seq<NativeMode>
    decreases natives.len(),
{
    if natives.len() == 0 {
        Seq::empty()
    } else {
        let before = modes_in(natives.drop_last());
        match mode_of(natives.last(), natives.len() - 1) {
            Some(mode) => before.push(mode),
            None => before,
        }
    }
}

/// Lists the MJPG modes of a stream.
pub fn enumerate_mjpg_native_modes(natives: &Vec<NativeType>) -> (modes: Vec<NativeMode>)
    ensures
        modes@ == modes_in(natives@),
{
    let mut modes: Vec<NativeMode> = Vec::new();
    let mut index: usize = 0;
    assert(natives@.take(0) =~= Seq::empty());
    while index < natives.len()
        invariant
            index <= natives@.len(),
            modes@ == modes_in(natives@.take(index as int)),
        decreases natives@.len() - index,
    {
        assert(natives@.take(index + 1).drop_last() =~= natives@.take(index as int));
        if natives[index].is_mjpg {
            if let Some(size) = natives[index].frame_size {
                let (width, height) = packed::unpacked(size);
                modes.push(NativeMode { index, width, height });
            }
        }
        index += 1;
    }
    assert(natives@.take(index as int) =~= natives@);
    modes
}

// ---------------------------------------------------------------------------
// Resolutions
// ---------------------------------------------------------------------------

/// The resolutions of the modes, each once, in the order in which they first occur.
pub open spec fn resolutions_in(modes: Seq<NativeMode>) -> Seq<CameraResolution>
    decreases modes.len(),
{
    if modes.len() == 0 {
        Seq::empty()
    } else {
        let before = resolutions_in(modes.drop_last());
        if before.contains(modes.last().resolution()) {
            before
        } else {
            before.push(modes.last().resolution())
        }
    }
}

/// By what resolutions are sorted.
pub open spec fn sort_key(r: CameraResolution) -> SortKey {
    SortKey { area: area(r) as u64, is_mjpeg: false, rate_num: 0, rate_den: 1 }
}

/// The keys of the resolutions.
pub open spec fn sort_keys(resolutions: Seq<CameraResolution>) -> Seq<SortKey> {
    resolutions.map_values(|r: CameraResolution| sort_key(r))
}

/// Whether `order` is the sorted order of `resolutions`.
pub open spec fn orders(resolutions: Seq<CameraResolution>, order: Seq<int>) -> bool {
    order::is_sorted_order(sort_keys(resolutions), order)
}

/// Whether `sorted` holds `resolutions` in their sorted order: the area descending, then as
/// they came.
pub open spec fn is_sorted_from(
    resolutions: Seq<CameraResolution>,
    sorted: Seq<CameraResolution>,
) -> bool {
    exists|order: Seq<int>|
        #[trigger] orders(resolutions, order) && sorted == order::reordered(resolutions, order)
}

proof fn lemma_area(r: CameraResolution)
    ensures
        0 <= area(r) <= 0xFFFF_FFFF * 0xFFFF_FFFF,
        sort_key(r).area == area(r),
{
    assert(0 <= r.width * r.height <= 0xFFFF_FFFF * 0xFFFF_FFFF) by (nonlinear_arith)
        requires
            0 <= r.width <= 0xFFFF_FFFF,
            0 <= r.height <= 0xFFFF_FFFF,
    ;
}

fn area_of(r: CameraResolution) -> (a: u64)
    ensures
        a == area(r),
{
    proof {
        lemma_area(r);
    }
    r.width as u64 * r.height as u64
}

/// Whether `r` is among the resolutions.
pub fn offers(resolutions: &Vec<CameraResolution>, r: CameraResolution) -> (yes: bool)
    ensures
        yes == resolutions@.contains(r),
{
    let mut i: usize = 0;
    while i < resolutions.len()
        invariant
            i <= resolutions@.len(),
            forall|j: int| 0 <= j < i ==> resolutions@[j] != r,
        decreases resolutions@.len() - i,
    {
        if resolutions[i] == r {
            assert(resolutions@[i as int] == r);
            return true;
        }
        i += 1;
    }
    false
}

/// Lists the resolutions of the modes, the largest first.
pub fn modes_to_resolutions(modes: &[NativeMode]) -> (resolutions: Vec<CameraResolution>)
    ensures
        is_sorted_from(resolutions_in(modes@), resolutions@),
{
    let mut values: Vec<CameraResolution> = Vec::new();
    let mut keys: Vec<SortKey> = Vec::new();
    let mut i: usize = 0;
    assert(modes@.take(0) =~= Seq::empty());
    while i < modes.len()
        invariant
            i <= modes@.len(),
            values@ == resolutions_in(modes@.take(i as int)),
            keys@ == sort_keys(values@),
        decreases modes@.len() - i,
    {
        assert(modes@.take(i + 1).drop_last() =~= modes@.take(i as int));
        let candidate = CameraResolution { width: modes[i].width, height: modes[i].height };
        if !offers(&values, candidate) {
            proof {
                lemma_area(candidate);
            }
            values.push(candidate);
            let area: u64 = area_of(candidate);
            keys.push(SortKey { area, is_mjpeg: false, rate_num: 0, rate_den: 1 });
            assert(keys@ =~= sort_keys(values@));
        }
        i += 1;
    }
    assert(modes@.take(i as int) =~= modes@);
    let order = order::sorted_order(&keys);
    let ghost positions = order::positions(order@);
    let mut sorted: Vec<CameraResolution> = Vec::new();
    let mut a: usize = 0;
    while a < order.len()
        invariant
            a <= order@.len(),
            positions == order::positions(order@),
            order::is_sorted_order(sort_keys(values@), positions),
            sorted@ == order::reordered(values@, positions).take(a as int),
        decreases order@.len() - a,
    {
        assert(0 <= positions[a as int] < values@.len());
        sorted.push(values[order[a]]);
        a += 1;
        assert(sorted@ =~= order::reordered(values@, positions).take(a as int));
    }
    assert(sorted@ =~= order::reordered(values@, positions));
    assert(orders(values@, positions));
    sorted
}

/// Whether some mode has the resolution `r`.
pub open spec fn has_resolution(modes: Seq<NativeMode>, r: CameraResolution) -> bool {
    exists|i: int| 0 <= i < modes.len() && (#[trigger] modes[i]).resolution() == r
}

proof fn lemma_resolutions(modes: Seq<NativeMode>)
    ensures
        resolutions_in(modes).no_duplicates(),
        forall|r: CameraResolution|
            #[trigger] resolutions_in(modes).contains(r) <==> has_resolution(modes, r),
    decreases modes.len(),
{
    if modes.len() > 0 {
        let front = modes.drop_last();
        let before = resolutions_in(front);
        let all = resolutions_in(modes);
        let last = modes.last().resolution();
        lemma_resolutions(front);
        assert forall|r: CameraResolution| #[trigger] all.contains(r) <==> has_resolution(
            modes,
            r,
        ) by {
            if has_resolution(modes, r) {
                let i = choose|i: int|
                    0 <= i < modes.len() && (#[trigger] modes[i]).resolution() == r;
                if i < front.len() {
                    assert(front[i].resolution() == r);
                    assert(before.contains(r));
                    let k = before.index_of(r);
                    assert(all[k] == r);
                } else if !before.contains(last) {
                    assert(all[before.len() as int] == r);
                }
            }
            if all.contains(r) {
                let k = all.index_of(r);
                if k < before.len() {
                    assert(before[k] == r);
                    assert(before.contains(r));
                    let i = choose|i: int|
                        0 <= i < front.len() && (#[trigger] front[i]).resolution() == r;
                    assert(modes[i].resolution() == r);
                } else {
                    assert(modes[modes.len() - 1].resolution() == r);
                }
            }
        }
    }
}

/// The listed resolutions are those of the modes, each once, and none is smaller than one
/// behind it.
pub proof fn listed_resolutions_are_those_of_the_modes(
    modes: Seq<NativeMode>,
    listed: Seq<CameraResolution>,
)
    requires
        is_sorted_from(resolutions_in(modes), listed),
    ensures
        listed.no_duplicates(),
        forall|r: CameraResolution| #[trigger] listed.contains(r) <==> has_resolution(modes, r),
        forall|i: int, j: int|
            0 <= i < j < listed.len() ==> area(#[trigger] listed[i]) >= area(#[trigger] listed[j]),
{
    let values = resolutions_in(modes);
    let keys = sort_keys(values);
    let order = choose|order: Seq<int>|
        #[trigger] orders(values, order) && listed == order::reordered(values, order);
    lemma_resolutions(modes);
    order::lemma_order_is_injective(keys, order);
    assert forall|i: int, j: int|
        0 <= i < listed.len() && 0 <= j < listed.len() && i != j implies listed[i]
        != listed[j] by {
        assert(order[i] != order[j]);
        assert(values[order[i]] != values[order[j]]);
    }
    assert forall|r: CameraResolution| #[trigger] listed.contains(r) <==> has_resolution(
        modes,
        r,
    ) by {
        if listed.contains(r) {
            let a = listed.index_of(r);
            assert(values[order[a]] == r);
            assert(values.contains(r));
        }
        if has_resolution(modes, r) {
            assert(values.contains(r));
            let i = values.index_of(r);
            order::lemma_order_is_surjective(keys, order, i);
            let a = order.index_of(i);
            assert(listed[a] == r);
        }
    }
    assert forall|i: int, j: int| 0 <= i < j < listed.len() implies area(#[trigger] listed[i])
        >= area(#[trigger] listed[j]) by {
        assert(order::goes_before(keys, order[i], order[j]));
        lemma_area(listed[i]);
        lemma_area(listed[j]);
    }
}

// ---------------------------------------------------------------------------
// Selection
// ---------------------------------------------------------------------------

/// The position of the first mode with the resolution `r`.
pub open spec fn first_with(modes: Seq<NativeMode>, r: CameraResolution) -> Option<int>
    decreases modes.len(),
{
    if modes.len() == 0 {
        None
    } else {
        match first_with(modes.drop_last(), r) {
            Some(i) => Some(i),
            None => if modes.last().resolution() == r {
                Some(modes.len() - 1)
            } else {
                None
            },
        }
    }
}

/// The position of the mode with the most pixels; of several, the last.
pub open spec fn last_largest(modes: Seq<NativeMode>) -> Option<int>
    decreases modes.len(),
{
    if modes.len() == 0 {
        None
    } else {
        match last_largest(modes.drop_last()) {
            Some(i) if area(modes[i].resolution()) > area(modes.last().resolution()) => Some(i),
            _ => Some(modes.len() - 1),
        }
    }
}

/// The position of the mode that is selected: the first with the preferred resolution, else the
/// first with the default resolution of a preview where the policy asks for it, else the last
/// with the most pixels.
pub open spec fn selected_mode(
    modes: Seq<NativeMode>,
    preferred: Option<CameraResolution>,
    policy: SelectionPolicy,
) -> Option<int> {
    let wanted = match preferred {
        Some(r) => first_with(modes, r),
        None => None,
    };
    if wanted is Some {
        wanted
    } else if policy == SelectionPolicy::Prefer1080p && first_with(modes, default_preview())
        is Some {
        first_with(modes, default_preview())
    } else {
        last_largest(modes)
    }
}

proof fn lemma_first_with(modes: Seq<NativeMode>, r: CameraResolution)
    ensures
        match first_with(modes, r) {
            Some(i) => {
                &&& 0 <= i < modes.len()
                &&& modes[i].resolution() == r
                &&& forall|j: int| 0 <= j < i ==> (#[trigger] modes[j]).resolution() != r
            },
            None => forall|j: int|
                0 <= j < modes.len() ==> (#[trigger] modes[j]).resolution() != r,
        },
    decreases modes.len(),
{
    if modes.len() > 0 {
        let front = modes.drop_last();
        lemma_first_with(front, r);
        assert forall|j: int| 0 <= j < front.len() implies front[j] == #[trigger] modes[j] by {}
    }
}

proof fn lemma_last_largest(modes: Seq<NativeMode>)
    ensures
        match last_largest(modes) {
            Some(i) => {
                &&& 0 <= i < modes.len()
                &&& forall|j: int|
                    0 <= j <= i ==> area((#[trigger] modes[j]).resolution()) <= area(
                        modes[i].resolution(),
                    )
                &&& forall|j: int|
                    i < j < modes.len() ==> area((#[trigger] modes[j]).resolution()) < area(
                        modes[i].resolution(),
                    )
            },
            None => modes.len() == 0,
        },
    decreases modes.len(),
{
    if modes.len() > 0 {
        let front = modes.drop_last();
        lemma_last_largest(front);
        assert forall|j: int| 0 <= j < front.len() implies front[j] == #[trigger] modes[j] by {}
    }
}

fn find_first(modes: &[NativeMode], r: CameraResolution) -> (found: Option<usize>)
    ensures
        match found {
            Some(i) => first_with(modes@, r) == Some(i as int) && i < modes@.len(),
            None => first_with(modes@, r) is None,
        },
{
    proof {
        lemma_first_with(modes@, r);
    }
    let mut i: usize = 0;
    while i < modes.len()
        invariant
            i <= modes@.len(),
            forall|j: int| 0 <= j < i ==> (#[trigger] modes@[j]).resolution() != r,
            match first_with(modes@, r) {
                Some(k) => {
                    &&& 0 <= k < modes@.len()
                    &&& modes@[k].resolution() == r
                    &&& forall|j: int| 0 <= j < k ==> (#[trigger] modes@[j]).resolution() != r
                },
                None => forall|j: int|
                    0 <= j < modes@.len() ==> (#[trigger] modes@[j]).resolution() != r,
            },
        decreases modes@.len() - i,
    {
        if modes[i].width == r.width && modes[i].height == r.height {
            assert(modes@[i as int].resolution() == r);
            return Some(i);
        }
        assert(modes@[i as int].resolution() != r);
        i += 1;
    }
    None
}

fn find_largest(modes: &[NativeMode]) -> (found: Option<usize>)
    ensures
        match found {
            Some(i) => last_largest(modes@) == Some(i as int) && i < modes@.len(),
            None => last_largest(modes@) is None,
        },
{
    let mut best: Option<usize> = None;
    let mut i: usize = 0;
    assert(modes@.take(0) =~= Seq::empty());
    while i < modes.len()
        invariant
            i <= modes@.len(),
            match best {
                Some(b) => b < i && last_largest(modes@.take(i as int)) == Some(b as int),
                None => i == 0,
            },
        decreases modes@.len() - i,
    {
        assert(modes@.take(i + 1).drop_last() =~= modes@.take(i as int));
        let here: u64 = area_of(
            CameraResolution { width: modes[i].width, height: modes[i].height },
        );
        match best {
            Some(b) => {
                let there: u64 = area_of(
                    CameraResolution { width: modes[b].width, height: modes[b].height },
                );
                if there <= here {
                    best = Some(i);
                }
            },
            None => {
                best = Some(i);
            },
        }
        i += 1;
    }
    assert(modes@.take(i as int) =~= modes@);
    best
}

/// Selects a mode and gives the index of its native media type.
pub fn select_mode_index(
    modes: &[NativeMode],
    preferred_resolution: Option<CameraResolution>,
    policy: SelectionPolicy,
) -> (index: Option<usize>)
    ensures
        match selected_mode(modes@, preferred_resolution, policy) {
            Some(i) => 0 <= i < modes@.len() && index == Some(modes@[i].index),
            None => index is None,
        },
{
    if let Some(preferred) = preferred_resolution {
        if let Some(i) = find_first(modes, preferred) {
            return Some(modes[i].index);
        }
    }
    if policy == SelectionPolicy::Prefer1080p {
        let preview = CameraResolution {
            width: DEFAULT_PREVIEW_WIDTH,
            height: DEFAULT_PREVIEW_HEIGHT,
        };
        if let Some(i) = find_first(modes, preview) {
            return Some(modes[i].index);
        }
    }
    match find_largest(modes) {
        Some(i) => Some(modes[i].index),
        None => None,
    }
}

/// A mode is selected wherever there is one. It has the preferred resolution where a mode has
/// it, else the default resolution of a preview where the policy asks for it and a mode has it,
/// and else no mode has more pixels.
pub proof fn selection_follows_the_preference(
    modes: Seq<NativeMode>,
    preferred: Option<CameraResolution>,
    policy: SelectionPolicy,
)
    ensures
        match selected_mode(modes, preferred, policy) {
            None => modes.len() == 0,
            Some(i) => {
                let r = modes[i].resolution();
                &&& 0 <= i < modes.len()
                &&& if preferred is Some && has_resolution(modes, preferred->0) {
                    r == preferred->0
                } else if policy == SelectionPolicy::Prefer1080p && has_resolution(
                    modes,
                    default_preview(),
                ) {
                    r == default_preview()
                } else {
                    forall|j: int|
                        0 <= j < modes.len() ==> area((#[trigger] modes[j]).resolution()) <= area(r)
                }
            },
        },
{
    lemma_last_largest(modes);
    lemma_first_with(modes, default_preview());
    if preferred is Some {
        lemma_first_with(modes, preferred->0);
    }
}

/// A resolution that is listed is the one that is selected where it is preferred.
pub proof fn a_listed_resolution_is_selected(
    modes: Seq<NativeMode>,
    listed: Seq<CameraResolution>,
    r: CameraResolution,
    policy: SelectionPolicy,
)
    requires
        is_sorted_from(resolutions_in(modes), listed),
        listed.contains(r),
    ensures
        selected_mode(modes, Some(r), policy) matches Some(i) && modes[i].resolution() == r,
{
    listed_resolutions_are_those_of_the_modes(modes, listed);
    selection_follows_the_preference(modes, Some(r), policy);
}

// ---------------------------------------------------------------------------
// Laws on the fields
// ---------------------------------------------------------------------------

/// Modes are listed in the order of the media types. One more media type adds a mode where it is
/// MJPG and has a size, with that size and its own index, and nothing otherwise.
pub proof fn each_mjpg_type_adds_its_mode(natives: Seq<NativeType>, native: NativeType)
    requires
        natives.len() <= usize::MAX,
    ensures
        modes_in(Seq::empty()) == Seq::<NativeMode>::empty(),
        ({
            let before = modes_in(natives);
            let after = modes_in(natives.push(native));
            match native.frame_size {
                Some(size) if native.is_mjpg => {
                    let added = after[before.len() as int];
                    &&& after.len() == before.len() + 1
                    &&& after.take(before.len() as int) == before
                    &&& added.index == natives.len()
                    &&& added.width * 0x1_0000_0000 + added.height == size
                },
                _ => after == before,
            }
        }),
{
    assert(modes_in(Seq::empty()) =~= Seq::<NativeMode>::empty());
    assert(natives.push(native).drop_last() =~= natives);
    let before = modes_in(natives);
    let after = modes_in(natives.push(native));
    assert(after.take(before.len() as int) =~= before);
    if let Some(size) = native.frame_size {
        packed::halves_make_up_the_whole(size);
    }
}

#[verifier::spinoff_prover]
#[verifier::rlimit(40)]
proof fn lemma_first_occurrences(modes: Seq<NativeMode>)
    ensures
        forall|i: int, j: int|
            0 <= i < j < resolutions_in(modes).len() ==> occurs_before(
                modes,
                #[trigger] resolutions_in(modes)[i],
                #[trigger] resolutions_in(modes)[j],
            ),
    decreases modes.len(),
{
    if modes.len() > 0 {
        let front = modes.drop_last();
        let before = resolutions_in(front);
        let all = resolutions_in(modes);
        lemma_first_occurrences(front);
        lemma_resolutions(front);
        lemma_resolutions(modes);
        assert forall|i: int, j: int| 0 <= i < j < all.len() implies occurs_before(
            modes,
            #[trigger] all[i],
            #[trigger] all[j],
        ) by {
            assert(all[i] == before[i]);
            if j < before.len() {
                assert(all[j] == before[j]);
                let a = choose|a: int|
                    0 <= a < front.len() && (#[trigger] front[a]).resolution() == before[i] && forall|
                        b: int,
                    | 0 <= b <= a ==> (#[trigger] front[b]).resolution() != before[j];
                assert(modes[a].resolution() == all[i]);
                assert forall|b: int| 0 <= b <= a implies (#[trigger] modes[b]).resolution()
                    != all[j] by {
                    assert(front[b] == modes[b]);
                }
            } else {
                assert(before.contains(before[i]));
                let a = choose|a: int|
                    0 <= a < front.len() && (#[trigger] front[a]).resolution() == before[i];
                assert(modes[a].resolution() == all[i]);
                assert forall|b: int| 0 <= b <= a implies (#[trigger] modes[b]).resolution()
                    != all[j] by {
                    assert(front[b] == modes[b]);
                    if front[b].resolution() == all[j] {
                        assert(has_resolution(front, all[j]));
                        assert(before.contains(all[j]));
                    }
                }
            }
        }
    }
}

/// Whether a mode has the resolution `r` before any has the resolution `s`.
spec fn occurs_before(modes: Seq<NativeMode>, r: CameraResolution, s: CameraResolution) -> bool {
    exists|a: int|
        0 <= a < modes.len() && (#[trigger] modes[a]).resolution() == r && forall|b: int|
            0 <= b <= a ==> (#[trigger] modes[b]).resolution() != s
}

/// Every mode has its size listed, and every listed size is that of a mode; no size is listed
/// twice. The one with the most pixels comes first, and of two with equally many the one that
/// occurs first among the modes.
#[verifier::spinoff_prover]
#[verifier::rlimit(40)]
pub proof fn every_size_is_listed_once_and_in_order(
    modes: Seq<NativeMode>,
    listed: Seq<CameraResolution>,
)
    requires
        is_sorted_from(resolutions_in(modes), listed),
    ensures
        forall|n: int|
            0 <= n < modes.len() ==> exists|i: int|
                0 <= i < listed.len() && (#[trigger] listed[i]).width == (#[trigger] modes[n]).width
                    && listed[i].height == modes[n].height,
        forall|i: int|
            0 <= i < listed.len() ==> exists|n: int|
                0 <= n < modes.len() && (#[trigger] listed[i]).width == (#[trigger] modes[n]).width
                    && listed[i].height == modes[n].height,
        forall|i: int, j: int|
            0 <= i < j < listed.len() ==> {
                let (a, b) = (#[trigger] listed[i], #[trigger] listed[j]);
                &&& a.width != b.width || a.height != b.height
                &&& a.width * a.height >= b.width * b.height
                &&& a.width * a.height == b.width * b.height ==> exists|n: int|
                    {
                        &&& 0 <= n < modes.len()
                        &&& (#[trigger] modes[n]).width == a.width && modes[n].height == a.height
                        &&& forall|m: int|
                            0 <= m <= n ==> (#[trigger] modes[m]).width != b.width
                                || modes[m].height != b.height
                    }
            },
{
    listed_resolutions_are_those_of_the_modes(modes, listed);
    let values = resolutions_in(modes);
    let order = choose|order: Seq<int>|
        #[trigger] orders(values, order) && listed == order::reordered(values, order);
    assert forall|n: int| 0 <= n < modes.len() implies exists|i: int|
        0 <= i < listed.len() && (#[trigger] listed[i]).width == (#[trigger] modes[n]).width
            && listed[i].height == modes[n].height by {
        assert(has_resolution(modes, modes[n].resolution()));
        assert(listed.contains(modes[n].resolution()));
        let i = listed.index_of(modes[n].resolution());
        assert(listed[i].width == modes[n].width);
    }
    assert forall|i: int| 0 <= i < listed.len() implies exists|n: int|
        0 <= n < modes.len() && (#[trigger] listed[i]).width == (#[trigger] modes[n]).width
            && listed[i].height == modes[n].height by {
        assert(listed.contains(listed[i]));
        let n = choose|n: int|
            0 <= n < modes.len() && (#[trigger] modes[n]).resolution() == listed[i];
        assert(modes[n].width == listed[i].width);
    }
    lemma_first_occurrences(modes);
    assert forall|i: int, j: int| 0 <= i < j < listed.len() implies {
        let (a, b) = (#[trigger] listed[i], #[trigger] listed[j]);
        &&& a.width != b.width || a.height != b.height
        &&& a.width * a.height >= b.width * b.height
        &&& a.width * a.height == b.width * b.height ==> exists|n: int|
            {
                &&& 0 <= n < modes.len()
                &&& (#[trigger] modes[n]).width == a.width && modes[n].height == a.height
                &&& forall|m: int|
                    0 <= m <= n ==> (#[trigger] modes[m]).width != b.width || modes[m].height
                        != b.height
            }
    } by {
        let (a, b) = (listed[i], listed[j]);
        assert(area(a) >= area(b));
        assert(order::goes_before(sort_keys(values), order[i], order[j]));
        lemma_area(a);
        lemma_area(b);
        if a.width * a.height == b.width * b.height {
            assert(a == values[order[i]] && b == values[order[j]]);
            assert(occurs_before(modes, a, b));
            let n = choose|n: int|
                0 <= n < modes.len() && (#[trigger] modes[n]).resolution() == a && forall|m: int|
                    0 <= m <= n ==> (#[trigger] modes[m]).resolution() != b;
            assert(modes[n].width == a.width && modes[n].height == a.height);
            assert forall|m: int| 0 <= m <= n implies (#[trigger] modes[m]).width != b.width
                || modes[m].height != b.height by {
                assert(modes[m].resolution() != b);
            }
        }
    }
}

/// The mode that is selected is the first with the preferred size; where no mode has it, the first
/// with 1920 by 1080 if the policy prefers that; and where there is none either, the last of those
/// with the most pixels. Without modes none is selected.
#[verifier::spinoff_prover]
#[verifier::rlimit(40)]
pub proof fn the_selected_mode_has_the_wanted_size(
    modes: Seq<NativeMode>,
    preferred: Option<CameraResolution>,
    policy: SelectionPolicy,
)
    ensures
        ({
            let chosen = selected_mode(modes, preferred, policy);
            let i = chosen->Some_0;
            let wanted = preferred is Some && exists|n: int|
                0 <= n < modes.len() && (#[trigger] modes[n]).width == preferred->Some_0.width
                    && modes[n].height == preferred->Some_0.height;
            let full = policy == SelectionPolicy::Prefer1080p && exists|n: int|
                0 <= n < modes.len() && (#[trigger] modes[n]).width == 1920 && modes[n].height
                    == 1080;
            &&& chosen is None <==> modes.len() == 0
            &&& chosen is Some ==> 0 <= i < modes.len()
            &&& wanted ==> {
                &&& modes[i].width == preferred->Some_0.width
                &&& modes[i].height == preferred->Some_0.height
                &&& forall|n: int|
                    0 <= n < i ==> (#[trigger] modes[n]).width != preferred->Some_0.width
                        || modes[n].height != preferred->Some_0.height
            }
            &&& !wanted && full ==> {
                &&& modes[i].width == 1920 && modes[i].height == 1080
                &&& forall|n: int|
                    0 <= n < i ==> (#[trigger] modes[n]).width != 1920 || modes[n].height != 1080
            }
            &&& !wanted && !full && chosen is Some ==> {
                let most = modes[i].width * modes[i].height;
                &&& forall|n: int|
                    0 <= n < modes.len() ==> (#[trigger] modes[n]).width * modes[n].height <= most
                &&& forall|n: int|
                    i < n < modes.len() ==> (#[trigger] modes[n]).width * modes[n].height < most
            }
        }),
{
    lemma_last_largest(modes);
    lemma_first_with(modes, default_preview());
    if let Some(r) = preferred {
        lemma_first_with(modes, r);
        assert forall|n: int| 0 <= n < modes.len() implies ((#[trigger] modes[n]).resolution() == r
            <==> modes[n].width == r.width && modes[n].height == r.height) by {}
    }
    assert forall|n: int| 0 <= n < modes.len() implies ((#[trigger] modes[n]).resolution()
        == default_preview() <==> modes[n].width == 1920 && modes[n].height == 1080) by {}
    assert forall|n: int| 0 <= n < modes.len() implies area((#[trigger] modes[n]).resolution())
        == modes[n].width * modes[n].height by {}
}

}
