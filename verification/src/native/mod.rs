//! Cameras of the machine without a session: one list, one photo at a time.

pub mod unsupported;

use crate::camera::media_foundation::calls;
use crate::camera::media_foundation::calls::SourceSlot;
use crate::camera::media_foundation::frames::SampleRead;
use crate::jpeg;
use crate::text;
use vstd::prelude::*;

verus! {

/// How many samples are read for one photo.
pub const SAMPLE_TRIES: u32 = 60;

/// A camera as it is listed.
#[derive(Debug, PartialEq, Eq)]
pub struct CameraInfo {
    pub id: String,
    pub name: String,
}

/// The mathematical content of a [`CameraInfo`].
pub struct CameraInfoView {
    pub id: Seq<char>,
    pub name: Seq<char>,
}

impl View for CameraInfo {
    type V = CameraInfoView;

    open spec fn view(&self) -> CameraInfoView {
        CameraInfoView { id: self.id@, name: self.name@ }
    }
}

/// A result with its error replaced by its view.
pub open spec fn viewed_plain<T>(r: Result<T, String>) -> Result<T, Seq<char>> {
    match r {
        Ok(v) => Ok(v),
        Err(message) => Err(message@),
    }
}

/// A result with both of its sides replaced by their views.
pub open spec fn viewed<T: View>(r: Result<T, String>) -> Result<T::V, Seq<char>> {
    match r {
        Ok(v) => Ok(v@),
        Err(message) => Err(message@),
    }
}

// ---------------------------------------------------------------------------
// Listing and finding cameras
// ---------------------------------------------------------------------------

/// The cameras with these names: each is known by its place.
pub open spec fn cameras_named(names: Seq<Seq<char>>) -> Seq<CameraInfoView> {
    Seq::new(
        names.len(),
        |i: int| CameraInfoView { id: text::decimal(i as nat), name: names[i] },
    )
}

/// The cameras among the sources.
pub open spec fn cameras_in(slots: Seq<SourceSlot>) -> Result<Seq<CameraInfoView>, Seq<char>> {
    match calls::names_in(slots) {
        Ok(names) => Ok(cameras_named(names)),
        Err(message) => Err(message),
    }
}

/// Listed cameras by their views.
pub open spec fn cameras_view(cameras: Result<Vec<CameraInfo>, String>) -> Result<
    Seq<CameraInfoView>,
    Seq<char>,
> {
    match cameras {
        Ok(cameras) => Ok(cameras@.map_values(|c: CameraInfo| c@)),
        Err(message) => Err(message@),
    }
}

/// Lists the cameras among the sources.
pub fn list_cameras(slots: &Vec<SourceSlot>) -> (cameras: Result<Vec<CameraInfo>, String>)
    ensures
        cameras_view(cameras) == cameras_in(slots@),
{
    let names = match calls::source_names(slots) {
        Ok(names) => names,
        Err(message) => {
            return Err(message);
        },
    };
    let ghost views = calls::texts_view(names@);
    let mut cameras: Vec<CameraInfo> = Vec::new();
    let mut i: usize = 0;
    while i < names.len()
        invariant
            i <= names@.len(),
            views == calls::texts_view(names@),
            cameras@.map_values(|c: CameraInfo| c@) == cameras_named(views).take(i as int),
        decreases names@.len() - i,
    {
        let ghost before = cameras@;
        cameras.push(CameraInfo { id: text::decimal_text(i as u64), name: names[i].clone() });
        i += 1;
        assert(cameras@.map_values(|c: CameraInfo| c@) =~= before.map_values(
            |c: CameraInfo| c@,
        ).push(cameras@.last()@));
        assert(cameras@.map_values(|c: CameraInfo| c@) =~= cameras_named(views).take(i as int));
    }
    assert(cameras@.map_values(|c: CameraInfo| c@) =~= cameras_named(views));
    Ok(cameras)
}

/// The camera among `count` that an identifier stands for.
pub open spec fn camera_of_id(camera_id: Seq<char>, count: nat) -> Result<usize, Seq<char>> {
    match text::parsed(camera_id, false) {
        Some(n) if n <= usize::MAX => if n < count {
            Ok(n as usize)
        } else {
            Err("camera not found: "@ + camera_id)
        },
        _ => Err("invalid camera id: "@ + camera_id),
    }
}

/// The camera among the sources of which a photo is taken.
pub open spec fn photographed(slots: Seq<SourceSlot>, camera_id: Seq<char>) -> Result<
    usize,
    Seq<char>,
> {
    match calls::names_in(slots) {
        Ok(names) => camera_of_id(camera_id, names.len()),
        Err(message) => Err(message),
    }
}

/// Begins to take a photo: finds the camera among the sources that there are.
pub fn capture_photo_jpeg(slots: &Vec<SourceSlot>, camera_id: &str) -> (index: Result<
    usize,
    String,
>)
    ensures
        viewed_plain(index) == photographed(slots@, camera_id@),
{
    let names = match calls::source_names(slots) {
        Ok(names) => names,
        Err(message) => {
            return Err(message);
        },
    };
    assert(calls::texts_view(names@).len() == names@.len());
    match text::parse_usize(camera_id) {
        Some(index) => if index < names.len() {
            Ok(index)
        } else {
            Err(text::joined("camera not found: ", camera_id))
        },
        None => Err(text::joined("invalid camera id: ", camera_id)),
    }
}

/// Every camera that is listed can be photographed by its identifier, and no two share one.
pub proof fn listed_cameras_are_found(slots: Seq<SourceSlot>, i: int)
    requires
        cameras_in(slots) is Ok,
        0 <= i < cameras_in(slots)->Ok_0.len() <= usize::MAX,
    ensures
        photographed(slots, cameras_in(slots)->Ok_0[i].id) == Ok::<usize, Seq<char>>(i as usize),
{
    text::decimal_is_read_back(i as nat);
}

// ---------------------------------------------------------------------------
// Frames
// ---------------------------------------------------------------------------

/// What reading a sample leads to.
#[derive(Debug, PartialEq, Eq)]
pub enum FrameStep {
    /// Reads the next sample.
    ReadSample,
    /// Ends with the frame or an error.
    Finish(Result<Vec<u8>, String>),
}

/// The mathematical content of a [`FrameStep`].
pub enum FrameStepView {
    ReadSample,
    Finish(Result<Seq<u8>, Seq<char>>),
}

impl View for FrameStep {
    type V = FrameStepView;

    open spec fn view(&self) -> FrameStepView {
        match *self {
            FrameStep::ReadSample => FrameStepView::ReadSample,
            FrameStep::Finish(r) => FrameStepView::Finish(viewed(r)),
        }
    }
}

/// What reading a sample leads to, where `left` more may be read: the first sample that there
/// is has to be JPEG.
pub open spec fn sample_step(read: SampleRead, left: nat) -> FrameStepView {
    match read {
        SampleRead::Failed(call, detail) => FrameStepView::Finish(Err(call.failure(detail@))),
        SampleRead::Data(data) => if jpeg::is_jpeg(data@) {
            FrameStepView::Finish(Ok(data@))
        } else {
            FrameStepView::Finish(
                Err("captured frame is not JPEG (camera may not support MJPG)"@),
            )
        },
        SampleRead::Empty => if left > 0 {
            FrameStepView::ReadSample
        } else {
            FrameStepView::Finish(Err("no video frame available from camera"@))
        },
    }
}

/// A search for a frame in the samples of a stream.
#[derive(Debug, PartialEq, Eq)]
pub struct FrameSearch {
    left: u32,
}

impl View for FrameSearch {
    type V = nat;

    closed spec fn view(&self) -> nat {
        self.left as nat
    }
}

impl FrameSearch {
    /// A search that has not read a sample.
    pub fn new() -> (search: Self)
        ensures
            search@ == SAMPLE_TRIES,
    {
        FrameSearch { left: SAMPLE_TRIES }
    }

    /// What the next sample leads to.
    pub fn sample_read(&mut self, read: SampleRead) -> (step: FrameStep)
        ensures
            final(self)@ == if old(self)@ > 0 {
                (old(self)@ - 1) as nat
            } else {
                0
            },
            step@ == sample_step(read, final(self)@),
    {
        if self.left > 0 {
            self.left = self.left - 1;
        }
        match read {
            SampleRead::Failed(call, detail) => FrameStep::Finish(
                Err(call.failed_text(detail.as_str())),
            ),
            SampleRead::Data(data) => if jpeg::looks_like_jpeg(data.as_slice()) {
                FrameStep::Finish(Ok(data))
            } else {
                FrameStep::Finish(
                    Err("captured frame is not JPEG (camera may not support MJPG)".to_owned()),
                )
            },
            SampleRead::Empty => if self.left > 0 {
                FrameStep::ReadSample
            } else {
                FrameStep::Finish(Err("no video frame available from camera".to_owned()))
            },
        }
    }
}

/// Where a search ends that may read `tries` of the samples `reads`: the number of samples that
/// it read and the step behind the last of them.
pub open spec fn search_run(reads: Seq<SampleRead>, tries: nat) -> (nat, FrameStepView)
    decreases tries,
{
    if tries == 0 || reads.len() == 0 {
        (0, FrameStepView::ReadSample)
    } else {
        match sample_step(reads[0], (tries - 1) as nat) {
            FrameStepView::ReadSample => {
                let (n, last) = search_run(reads.skip(1), (tries - 1) as nat);
                (n + 1, last)
            },
            last => (1, last),
        }
    }
}

/// A search ends at the first sample that there is, with what that sample leads to.
pub proof fn search_ends_at_the_first_sample(reads: Seq<SampleRead>, tries: nat, n: int)
    requires
        0 <= n < reads.len(),
        n < tries,
        forall|i: int| 0 <= i < n ==> #[trigger] reads[i] is Empty,
        !(reads[n] is Empty),
    ensures
        search_run(reads, tries) == ((n + 1) as nat, sample_step(reads[n], 0)),
    decreases n,
{
    if n > 0 {
        assert(reads[0] is Empty);
        let rest = reads.skip(1);
        assert(rest[n - 1] == reads[n]);
        search_ends_at_the_first_sample(rest, (tries - 1) as nat, n - 1);
    }
}

/// A search without samples reads as often as it may, and fails.
pub proof fn search_gives_up(reads: Seq<SampleRead>, tries: nat)
    requires
        0 < tries <= reads.len(),
        forall|i: int| 0 <= i < tries ==> #[trigger] reads[i] is Empty,
    ensures
        search_run(reads, tries) == (
            tries,
            FrameStepView::Finish(Err("no video frame available from camera"@)),
        ),
    decreases tries,
{
    assert(reads[0] is Empty);
    if tries > 1 {
        search_gives_up(reads.skip(1), (tries - 1) as nat);
    }
}

// ---------------------------------------------------------------------------
// Laws
// ---------------------------------------------------------------------------

/// Cameras are listed by the names of the sources that there are, each by its place among them;
/// where the names cannot be had, their error is answered.
pub proof fn cameras_are_listed_by_their_places(slots: Seq<SourceSlot>)
    ensures
        match calls::names_in(slots) {
            Ok(names) => cameras_in(slots) matches Ok(cameras) && cameras.len() == names.len()
                && forall|i: int|
                0 <= i < names.len() ==> (#[trigger] cameras[i]).name == names[i] && cameras[i].id
                    == text::decimal(i as nat),
            Err(message) => cameras_in(slots) == Err::<Seq<CameraInfoView>, Seq<char>>(message),
        },
{
}

/// A photo is taken of the camera at the place that the identifier reads as. A text that is no
/// number is invalid, and a place behind the last camera is not found.
pub proof fn a_photo_is_taken_of_the_camera_at_its_place(
    slots: Seq<SourceSlot>,
    camera_id: Seq<char>,
)
    ensures
        match calls::names_in(slots) {
            Err(message) => photographed(slots, camera_id) == Err::<usize, Seq<char>>(message),
            Ok(names) => match text::parsed(camera_id, false) {
                Some(n) if n <= usize::MAX => {
                    &&& n < names.len() ==> (photographed(slots, camera_id) matches Ok(index)
                        && index == n)
                    &&& n >= names.len() ==> photographed(slots, camera_id) == Err::<
                        usize,
                        Seq<char>,
                    >("camera not found: "@ + camera_id)
                },
                _ => photographed(slots, camera_id) == Err::<usize, Seq<char>>(
                    "invalid camera id: "@ + camera_id,
                ),
            },
        },
{
}

/// The first sample that there is becomes the photo where it is JPEG, byte for byte, and an error
/// where it is not. A failed call is reported. Without a sample another one is read, up to sixty.
pub proof fn the_first_sample_becomes_the_photo(read: SampleRead, left: nat)
    ensures
        SAMPLE_TRIES == 60,
        match read {
            SampleRead::Failed(call, detail) => sample_step(read, left) == FrameStepView::Finish(
                Err(call.title() + " failed: "@ + detail@),
            ),
            SampleRead::Data(data) => sample_step(read, left) == FrameStepView::Finish(
                if data@.len() > 4 && data@[0] == 255 && data@[1] == 216 {
                    Ok(data@)
                } else {
                    Err("captured frame is not JPEG (camera may not support MJPG)"@)
                },
            ),
            SampleRead::Empty => {
                &&& left > 0 ==> sample_step(read, left) == FrameStepView::ReadSample
                &&& left == 0 ==> sample_step(read, left) == FrameStepView::Finish(
                    Err("no video frame available from camera"@),
                )
            },
        },
{
}

/// Cameras, photos and steps are compared by what they hold.
pub proof fn answers_are_seen_by_what_they_hold(
    cameras: Vec<CameraInfo>,
    i: int,
    frame: Vec<u8>,
    index: usize,
    message: String,
)
    requires
        0 <= i < cameras@.len(),
    ensures
        cameras_view(Ok(cameras)) matches Ok(seen) && seen.len() == cameras@.len() && seen[i].id
            == cameras@[i].id@ && seen[i].name == cameras@[i].name@,
        cameras_view(Err(message)) == Err::<Seq<CameraInfoView>, Seq<char>>(message@),
        viewed_plain(Ok::<usize, String>(index)) == Ok::<usize, Seq<char>>(index),
        viewed_plain(Err::<usize, String>(message)) == Err::<usize, Seq<char>>(message@),
        FrameStep::ReadSample@ is ReadSample,
        FrameStep::Finish(Ok(frame))@ == FrameStepView::Finish(Ok(frame@)),
        FrameStep::Finish(Err(message))@ == FrameStepView::Finish(Err(message@)),
{
}

}
