//! How MJPG frames are read from a source.

use crate::camera::indexed;
use crate::camera::media_foundation::calls::MediaCall;
use crate::camera::CameraResolution;
use crate::camera::{CameraError, CameraErrorView};
use crate::jpeg;
use vstd::prelude::*;

verus! {

/// How many samples are read for one frame.
pub const SAMPLE_TRIES: u32 = 90;

/// How long a session pauses between two frames, in milliseconds.
pub const FRAME_PAUSE_MS: u64 = 20;

// ---------------------------------------------------------------------------
// One frame
// ---------------------------------------------------------------------------

/// What reading a sample gave.
#[derive(Debug, PartialEq, Eq)]
pub enum SampleRead {
    /// A call failed, with this message.
    Failed(MediaCall, String),
    /// There was no sample.
    Empty,
    /// The bytes of the sample.
    Data(Vec<u8>),
}

/// What reading a sample leads to.
#[derive(Debug, PartialEq, Eq)]
pub enum FrameStep {
    /// Reads the next sample.
    ReadSample,
    /// Ends with the frame or an error.
    Finish(Result<Vec<u8>, CameraError>),
}

/// The mathematical content of a [`FrameStep`].
pub enum FrameStepView {
    ReadSample,
    Finish(Result<Seq<u8>, CameraErrorView>),
}

impl View for FrameStep {
    type V = FrameStepView;

    open spec fn view(&self) -> FrameStepView {
        match *self {
            FrameStep::ReadSample => FrameStepView::ReadSample,
            FrameStep::Finish(r) => FrameStepView::Finish(crate::camera::viewed(r)),
        }
    }
}

/// Whether a sample is passed over: there is none, or it is not JPEG.
pub open spec fn is_passed_over(read: SampleRead) -> bool {
    match read {
        SampleRead::Failed(_, _) => false,
        SampleRead::Empty => true,
        SampleRead::Data(data) => !jpeg::is_jpeg(data@),
    }
}

/// The error where no sample is JPEG.
pub open spec fn not_jpeg() -> CameraErrorView {
    CameraErrorView::BackendFailure("captured frame is not JPEG (camera may not support MJPG)"@)
}

/// What reading a sample leads to, where `left` more may be read.
pub open spec fn sample_step(read: SampleRead, left: nat) -> FrameStepView {
    match read {
        SampleRead::Failed(call, detail) => FrameStepView::Finish(
            Err(CameraErrorView::BackendFailure(call.failure(detail@))),
        ),
        SampleRead::Data(data) if jpeg::is_jpeg(data@) => FrameStepView::Finish(Ok(data@)),
        _ => if left > 0 {
            FrameStepView::ReadSample
        } else {
            FrameStepView::Finish(Err(not_jpeg()))
        },
    }
}

/// A search for a frame in the samples of a stream.
#[derive(Debug, PartialEq, Eq)]
pub struct FrameSearch {
    left: u32,
}

impl View for FrameSearch {
    type V = nat;

    closed spec fn view(&self) -> nat {
        self.left as nat
    }
}

impl FrameSearch {
    /// A search that has not read a sample.
    pub fn new() -> (search: Self)
        ensures
            search@ == SAMPLE_TRIES,
    {
        FrameSearch { left: SAMPLE_TRIES }
    }

    /// What the next sample leads to.
    pub fn sample_read(&mut self, read: SampleRead) -> (step: FrameStep)
        ensures
            final(self)@ == if old(self)@ > 0 {
                (old(self)@ - 1) as nat
            } else {
                0
            },
            step@ == sample_step(read, final(self)@),
    {
        if self.left > 0 {
            self.left = self.left - 1;
        }
        match read {
            SampleRead::Failed(call, detail) => {
                return FrameStep::Finish(Err(call.failed(detail.as_str())));
            },
            SampleRead::Data(data) => {
                if jpeg::looks_like_jpeg(data.as_slice()) {
                    return FrameStep::Finish(Ok(data));
                }
            },
            SampleRead::Empty => {},
        }
        if self.left > 0 {
            FrameStep::ReadSample
        } else {
            FrameStep::Finish(
                Err(
                    CameraError::BackendFailure(
                        "captured frame is not JPEG (camera may not support MJPG)".to_owned(),
                    ),
                ),
            )
        }
    }
}

/// Where a search ends that may read `tries` of the samples `reads`: the number of samples that
/// it read and the step behind the last of them.
pub open spec fn search_run(reads: Seq<SampleRead>, tries: nat) -> (nat, FrameStepView)
    decreases tries,
{
    if tries == 0 || reads.len() == 0 {
        (0, FrameStepView::ReadSample)
    } else {
        match sample_step(reads[0], (tries - 1) as nat) {
            FrameStepView::ReadSample => {
                let (n, last) = search_run(reads.skip(1), (tries - 1) as nat);
                (n + 1, last)
            },
            last => (1, last),
        }
    }
}

/// A search ends at the first sample that is not passed over, with what that sample leads to.
pub proof fn search_ends_at_the_first_frame(reads: Seq<SampleRead>, tries: nat, n: int)
    requires
        0 <= n < reads.len(),
        n < tries,
        forall|i: int| 0 <= i < n ==> is_passed_over(#[trigger] reads[i]),
        !is_passed_over(reads[n]),
    ensures
        search_run(reads, tries) == ((n + 1) as nat, sample_step(reads[n], 0)),
    decreases n,
{
    if n > 0 {
        assert(is_passed_over(reads[0]));
        let rest = reads.skip(1);
        assert(rest[n - 1] == reads[n]);
        search_ends_at_the_first_frame(rest, (tries - 1) as nat, n - 1);
    }
}

/// A search that passes over every sample reads as many of them as it may, and fails.
pub proof fn search_gives_up(reads: Seq<SampleRead>, tries: nat)
    requires
        0 < tries <= reads.len(),
        forall|i: int| 0 <= i < tries ==> is_passed_over(#[trigger] reads[i]),
    ensures
        search_run(reads, tries) == (tries, FrameStepView::Finish(Err(not_jpeg()))),
    decreases tries,
{
    assert(is_passed_over(reads[0]));
    if tries > 1 {
        search_gives_up(reads.skip(1), (tries - 1) as nat);
    }
}

// ---------------------------------------------------------------------------
// Sessions
// ---------------------------------------------------------------------------

/// What a session does next.
#[derive(Debug, Clone, Copy, PartialEq, Eq)]
pub enum PreviewStep {
    /// Makes a reader for frames of this size.
    CreateReader(Option<CameraResolution>),
    /// Reads a frame and keeps what [`indexed::kept_frame`] makes of it, then goes on as with
    /// [`PreviewStep::Pause`].
    ReadFrame,
    /// Waits for [`FRAME_PAUSE_MS`].
    Pause,
}

/// The reader of a session: the size that was asked for last, and whether there is a reader.
#[derive(Debug, PartialEq, Eq)]
pub struct PreviewReader {
    current: Option<CameraResolution>,
    has_reader: bool,
}

impl View for PreviewReader {
    type V = (Option<CameraResolution>, bool);

    closed spec fn view(&self) -> (Option<CameraResolution>, bool) {
        (self.current, self.has_reader)
    }
}

/// What the size of the preview leads to: another size than before needs another reader, and so
/// does a session without one.
pub open spec fn preview_step(
    reader: (Option<CameraResolution>, bool),
    desired: Option<CameraResolution>,
) -> PreviewStep {
    if reader == (desired, true) {
        PreviewStep::ReadFrame
    } else {
        PreviewStep::CreateReader(desired)
    }
}

/// What it leads to that a reader was made, or could not be.
pub open spec fn created_step(created: bool) -> PreviewStep {
    if created {
        PreviewStep::ReadFrame
    } else {
        PreviewStep::Pause
    }
}

impl PreviewReader {
    /// A session without a reader.
    pub fn new() -> (reader: Self)
        ensures
            reader@ == (None::<CameraResolution>, false),
    {
        PreviewReader { current: None, has_reader: false }
    }

    /// What the size of the preview leads to.
    pub fn next(&self, desired: Option<CameraResolution>) -> (step: PreviewStep)
        ensures
            step == preview_step(self@, desired),
    {
        if self.has_reader && same_size(self.current, desired) {
            PreviewStep::ReadFrame
        } else {
            PreviewStep::CreateReader(desired)
        }
    }

    /// What it leads to that a reader for frames of this size was made, or could not be.
    pub fn reader_created(&mut self, desired: Option<CameraResolution>, created: bool) -> (step:
        PreviewStep)
        ensures
            final(self)@ == (desired, created),
            step == created_step(created),
    {
        self.current = desired;
        self.has_reader = created;
        if created {
            PreviewStep::ReadFrame
        } else {
            PreviewStep::Pause
        }
    }
}

fn same_size(a: Option<CameraResolution>, b: Option<CameraResolution>) -> (yes: bool)
    ensures
        yes == (a == b),
{
    match (a, b) {
        (Some(x), Some(y)) => x == y,
        (None, None) => true,
        _ => false,
    }
}

/// A reader is kept as long as the size of the preview stays, and given up where it changes; a
/// session whose reader could not be made tries again.
pub proof fn a_reader_is_kept_for_its_size(
    size: Option<CameraResolution>,
    desired: Option<CameraResolution>,
)
    ensures
        preview_step((size, true), desired) == PreviewStep::ReadFrame <==> size == desired,
        preview_step((size, false), desired) == PreviewStep::CreateReader(desired),
{
}

/// What a session meets in one turn: the size of the preview, whether a reader for it can be made,
/// and the frame that a reader gives.
pub struct PreviewTurn {
    pub desired: Option<CameraResolution>,
    pub created: bool,
    pub frame: Result<Seq<u8>, CameraErrorView>,
}

/// The reader of a session behind a turn.
pub open spec fn reader_step(
    reader: (Option<CameraResolution>, bool),
    turn: PreviewTurn,
) -> (Option<CameraResolution>, bool) {
    match preview_step(reader, turn.desired) {
        PreviewStep::CreateReader(desired) => (desired, turn.created),
        _ => reader,
    }
}

/// Whether a frame is read in a turn.
pub open spec fn reads_frame(
    reader: (Option<CameraResolution>, bool),
    turn: PreviewTurn,
) -> bool {
    match preview_step(reader, turn.desired) {
        PreviewStep::CreateReader(_) => created_step(turn.created) == PreviewStep::ReadFrame,
        step => step == PreviewStep::ReadFrame,
    }
}

/// The reader of a session behind its turns.
pub open spec fn reader_after(turns: Seq<PreviewTurn>) -> (Option<CameraResolution>, bool)
    decreases turns.len(),
{
    if turns.len() == 0 {
        (None, false)
    } else {
        reader_step(reader_after(turns.drop_last()), turns.last())
    }
}

/// The frame that is captured in the turn at `i`, where one is.
pub open spec fn captured_in(turns: Seq<PreviewTurn>, i: int) -> Option<Seq<u8>> {
    match turns[i].frame {
        Ok(frame) if reads_frame(reader_after(turns.take(i)), turns[i]) => Some(frame),
        _ => None,
    }
}

/// The frame that a session keeps behind its turns, of the one that it began with.
pub open spec fn slot_after(slot: Option<Seq<u8>>, turns: Seq<PreviewTurn>) -> Option<Seq<u8>>
    decreases turns.len(),
{
    if turns.len() == 0 {
        slot
    } else {
        let before = slot_after(slot, turns.drop_last());
        if reads_frame(reader_after(turns.drop_last()), turns.last()) {
            indexed::kept(before, turns.last().frame)
        } else {
            before
        }
    }
}

/// A session keeps the frame of the last turn in which one was captured, and the one that it
/// began with where there was no such turn: neither a failed read nor a reader that cannot be
/// made takes a frame away.
pub proof fn a_session_keeps_its_last_frame(slot: Option<Seq<u8>>, turns: Seq<PreviewTurn>)
    ensures
        forall|i: int|
            0 <= i < turns.len() && (#[trigger] captured_in(turns, i)) is Some && (forall|k: int|
                i < k < turns.len() ==> (#[trigger] captured_in(turns, k)) is None) ==> slot_after(
                slot,
                turns,
            ) == captured_in(turns, i),
        (forall|i: int| 0 <= i < turns.len() ==> (#[trigger] captured_in(turns, i)) is None)
            ==> slot_after(slot, turns) == slot,
    decreases turns.len(),
{
    if turns.len() > 0 {
        let front = turns.drop_last();
        let last = turns.len() - 1;
        a_session_keeps_its_last_frame(slot, front);
        assert(turns.take(last) =~= front);
        assert forall|i: int| 0 <= i < front.len() implies #[trigger] captured_in(front, i)
            == captured_in(turns, i) by {
            assert(front.take(i) =~= turns.take(i));
        }
        if captured_in(turns, last) is None {
            assert(slot_after(slot, turns) == slot_after(slot, front));
        } else {
            assert(slot_after(slot, turns) == captured_in(turns, last));
        }
        assert forall|i: int|
            0 <= i < turns.len() && (#[trigger] captured_in(turns, i)) is Some && (forall|k: int|
                i < k < turns.len() ==> (#[trigger] captured_in(turns, k)) is None) implies
            slot_after(slot, turns) == captured_in(turns, i) by {
            if i < last {
                assert(captured_in(turns, last) is None);
                assert(captured_in(front, i) is Some);
                assert forall|k: int| i < k < front.len() implies (#[trigger] captured_in(front, k))
                    is None by {
                    assert(captured_in(turns, k) is None);
                }
            }
        }
        if forall|i: int| 0 <= i < turns.len() ==> (#[trigger] captured_in(turns, i)) is None {
            assert(captured_in(turns, last) is None);
            assert forall|k: int| 0 <= k < front.len() implies (#[trigger] captured_in(front, k))
                is None by {
                assert(captured_in(turns, k) is None);
            }
        }
    }
}

/// A sample that is JPEG is the frame, byte for byte, and a failed call is reported. Any other
/// sample, and none at all, is passed over while more may be read, and is an error behind the last
/// of ninety.
pub proof fn the_first_jpeg_sample_is_the_frame(read: SampleRead, left: nat)
    ensures
        SAMPLE_TRIES == 90,
        FRAME_PAUSE_MS == 20,
        ({
            let step = sample_step(read, left);
            let is_frame = read matches SampleRead::Data(data) && data@.len() > 4 && data@[0] == 255
                && data@[1] == 216;
            &&& is_frame ==> step == FrameStepView::Finish(Ok(read->Data_0@))
            &&& read matches SampleRead::Failed(call, detail) ==> step == FrameStepView::Finish(
                Err(
                    CameraErrorView::BackendFailure(call.title() + " failed: "@ + detail@),
                ),
            )
            &&& !is_frame && !(read is Failed) && left > 0 ==> step == FrameStepView::ReadSample
            &&& !is_frame && !(read is Failed) && left == 0 ==> step == FrameStepView::Finish(
                Err(
                    CameraErrorView::BackendFailure(
                        "captured frame is not JPEG (camera may not support MJPG)"@,
                    ),
                ),
            )
        }),
{
}

/// A session reads frames as long as it has a reader for the size that is asked for, and makes one
/// for that size otherwise; it reads from a reader that was made, and pauses where none was.
pub proof fn a_session_reads_from_a_reader_of_its_size(
    current: Option<CameraResolution>,
    has_reader: bool,
    desired: Option<CameraResolution>,
)
    ensures
        has_reader && current == desired ==> preview_step((current, has_reader), desired)
            == PreviewStep::ReadFrame,
        !has_reader || current != desired ==> preview_step((current, has_reader), desired)
            == PreviewStep::CreateReader(desired),
        created_step(true) == PreviewStep::ReadFrame,
        created_step(false) == PreviewStep::Pause,
{
}

/// The steps of a search are compared by what they hold.
pub proof fn steps_are_seen_by_what_they_hold(frame: Vec<u8>, e: CameraError)
    ensures
        FrameStep::ReadSample@ is ReadSample,
        FrameStep::Finish(Ok(frame))@ == FrameStepView::Finish(Ok(frame@)),
        FrameStep::Finish(Err(e))@ == FrameStepView::Finish(Err(e@)),
{
}

}
