//! What the backends share whose cameras are known by their place in a list.

use crate::camera;
use crate::camera::{CameraDevice, CameraError, CameraErrorView};
use crate::text;
use vstd::prelude::*;

verus! {

// ---------------------------------------------------------------------------
// Errors
// ---------------------------------------------------------------------------

/// The message about a failed call.
pub open spec fn failed_message(call: Seq<char>, detail: Seq<char>) -> Seq<char> {
    call + " failed: "@ + detail
}

/// The error of a failed call.
pub fn call_failed(call: &str, detail: &str) -> (e: CameraError)
    ensures
        e@ == CameraErrorView::BackendFailure(failed_message(call@, detail@)),
{
    CameraError::BackendFailure(text::joined3(call, " failed: ", detail))
}

/// How messages refer to a camera of a backend.
pub open spec fn qualified(backend: Seq<char>, raw_id: Seq<char>) -> Seq<char> {
    backend + ":"@ + raw_id
}

/// The error for an identifier that is no index.
pub open spec fn invalid_id(backend: Seq<char>, raw_id: Seq<char>) -> CameraErrorView {
    CameraErrorView::InvalidCameraId("invalid camera id: "@ + qualified(backend, raw_id))
}

/// The error for an identifier behind which there is no camera.
pub open spec fn not_found(backend: Seq<char>, raw_id: Seq<char>) -> CameraErrorView {
    CameraErrorView::CameraNotFound("camera not found: "@ + qualified(backend, raw_id))
}

/// The error for an identifier behind which there is no camera.
pub fn camera_not_found(backend: &str, raw_id: &str) -> (e: CameraError)
    ensures
        e@ == not_found(backend@, raw_id@),
{
    let name = text::joined3(backend, ":", raw_id);
    CameraError::CameraNotFound(text::joined("camera not found: ", name.as_str()))
}

// ---------------------------------------------------------------------------
// Looking a camera up
// ---------------------------------------------------------------------------

/// The index that an identifier stands for.
pub open spec fn index_of_id(backend: Seq<char>, raw_id: Seq<char>) -> Result<
    usize,
    CameraErrorView,
> {
    match text::parsed(raw_id, false) {
        Some(n) if n <= usize::MAX => Ok(n as usize),
        _ => Err(invalid_id(backend, raw_id)),
    }
}

/// The camera among `count` that an identifier stands for.
pub open spec fn camera_of_id(backend: Seq<char>, raw_id: Seq<char>, count: nat) -> Result<
    usize,
    CameraErrorView,
> {
    match index_of_id(backend, raw_id) {
        Ok(index) => if index < count {
            Ok(index)
        } else {
            Err(not_found(backend, raw_id))
        },
        Err(e) => Err(e),
    }
}

/// Reads an identifier.
pub fn camera_index(backend: &str, raw_id: &str) -> (index: Result<usize, CameraError>)
    ensures
        camera::viewed_plain(index) == index_of_id(backend@, raw_id@),
{
    match text::parse_usize(raw_id) {
        Some(index) => Ok(index),
        None => {
            let name = text::joined3(backend, ":", raw_id);
            Err(CameraError::InvalidCameraId(text::joined("invalid camera id: ", name.as_str())))
        },
    }
}

/// Looks an identifier up among `count` cameras.
pub fn camera_at(backend: &str, raw_id: &str, count: usize) -> (index: Result<usize, CameraError>)
    ensures
        camera::viewed_plain(index) == camera_of_id(backend@, raw_id@, count as nat),
{
    match camera_index(backend, raw_id) {
        Ok(index) => if index < count {
            Ok(index)
        } else {
            Err(camera_not_found(backend, raw_id))
        },
        Err(e) => Err(e),
    }
}

/// Whether the cameras are known by their places in the list.
pub open spec fn ids_are_places(devices: Seq<CameraDevice>) -> bool {
    forall|i: int|
        0 <= i < devices.len() ==> (#[trigger] devices[i]).raw_id@ == text::decimal(i as nat)
}

/// Whether a camera in the list has this identifier.
pub open spec fn is_listed(devices: Seq<CameraDevice>, raw_id: Seq<char>) -> bool {
    exists|i: int| 0 <= i < devices.len() && (#[trigger] devices[i]).raw_id@ == raw_id
}

/// Whether a camera in the list has this identifier.
pub fn listed(devices: &Vec<CameraDevice>, raw_id: &str) -> (yes: bool)
    ensures
        yes == is_listed(devices@, raw_id@),
{
    let mut i: usize = 0;
    while i < devices.len()
        invariant
            i <= devices@.len(),
            forall|j: int| 0 <= j < i ==> (#[trigger] devices@[j]).raw_id@ != raw_id@,
        decreases devices@.len() - i,
    {
        if text::same_text(devices[i].raw_id.as_str(), raw_id) {
            return true;
        }
        i += 1;
    }
    false
}

/// The identifier of every camera in a list stands for that camera.
pub proof fn listed_ids_are_found(backend: Seq<char>, devices: Seq<CameraDevice>, i: int)
    requires
        ids_are_places(devices),
        0 <= i < devices.len() <= usize::MAX,
    ensures
        camera_of_id(backend, devices[i].raw_id@, devices.len()) == Ok::<usize, CameraErrorView>(
            i as usize,
        ),
{
    text::decimal_is_read_back(i as nat);
}

/// No two cameras in a list share an identifier.
pub proof fn listed_ids_are_distinct(devices: Seq<CameraDevice>, i: int, j: int)
    requires
        ids_are_places(devices),
        0 <= i < devices.len(),
        0 <= j < devices.len(),
        devices[i].raw_id@ == devices[j].raw_id@,
    ensures
        i == j,
{
    text::decimal_is_read_back(i as nat);
    text::decimal_is_read_back(j as nat);
}

// ---------------------------------------------------------------------------
// Waiting for a frame
// ---------------------------------------------------------------------------

/// How many times a session is asked for its latest frame.
pub const POLL_TRIES: u32 = 20;

/// What asking a session for its latest frame leads to.
#[derive(Debug, PartialEq, Eq)]
pub enum PollStep {
    /// There is a frame.
    Frame(Vec<u8>),
    /// Waits, then asks again.
    WaitAndPoll,
    /// Waits, then captures a frame without the session.
    WaitAndCapture,
}

/// What asking a session leads to, where it may be asked `left` more times.
pub open spec fn is_poll_step(frame: Option<Vec<u8>>, left: nat, step: PollStep) -> bool {
    match frame {
        Some(frame) => step == PollStep::Frame(frame),
        None => if left > 0 {
            step is WaitAndPoll
        } else {
            step is WaitAndCapture
        },
    }
}

/// The requests for the latest frame of a session.
#[derive(Debug, PartialEq, Eq)]
pub struct FramePoll {
    left: u32,
}

impl View for FramePoll {
    type V = nat;

    closed spec fn view(&self) -> nat {
        self.left as nat
    }
}

impl FramePoll {
    /// Requests of which none was made.
    pub fn new() -> (poll: Self)
        ensures
            poll@ == POLL_TRIES,
    {
        FramePoll { left: POLL_TRIES }
    }

    /// What the answer to the next request leads to.
    pub fn polled(&mut self, frame: Option<Vec<u8>>) -> (step: PollStep)
        ensures
            final(self)@ == if old(self)@ > 0 {
                (old(self)@ - 1) as nat
            } else {
                0
            },
            is_poll_step(frame, final(self)@, step),
    {
        if self.left > 0 {
            self.left = self.left - 1;
        }
        match frame {
            Some(frame) => PollStep::Frame(frame),
            None => if self.left > 0 {
                PollStep::WaitAndPoll
            } else {
                PollStep::WaitAndCapture
            },
        }
    }
}

// ---------------------------------------------------------------------------
// The latest frame of a session
// ---------------------------------------------------------------------------

/// The frame that a session keeps behind a capture: the captured one, or the one before where
/// the capture failed.
pub open spec fn kept(
    slot: Option<Seq<u8>>,
    captured: Result<Seq<u8>, CameraErrorView>,
) -> Option<Seq<u8>> {
    match captured {
        Ok(frame) => Some(frame),
        Err(_) => slot,
    }
}

/// The frame that a session keeps, by its view.
pub open spec fn slot_view(slot: Option<Vec<u8>>) -> Option<Seq<u8>> {
    match slot {
        Some(frame) => Some(frame@),
        None => None,
    }
}

/// The frame that a session keeps behind a capture. A failed capture never takes one away.
pub fn kept_frame(slot: Option<Vec<u8>>, captured: Result<Vec<u8>, CameraError>) -> (after: Option<
    Vec<u8>,
>)
    ensures
        after == match captured {
            Ok(frame) => Some(frame),
            Err(_) => slot,
        },
        slot_view(after) == kept(slot_view(slot), camera::viewed(captured)),
{
    match captured {
        Ok(frame) => Some(frame),
        Err(_) => slot,
    }
}

// ---------------------------------------------------------------------------
// Laws
// ---------------------------------------------------------------------------

/// The message about a failed call names the call, says that it failed, and ends with the detail.
pub proof fn a_failure_tells_the_call_and_the_detail(call: Seq<char>, detail: Seq<char>)
    ensures
        ({
            let message = failed_message(call, detail);
            let n = call.len() as int;
            &&& message.len() == n + 9 + detail.len()
            &&& message.take(n) == call
            &&& message.subrange(n, n + 9) == seq![' ', 'f', 'a', 'i', 'l', 'e', 'd', ':', ' ']
            &&& message.skip(n + 9) == detail
        }),
{
    reveal_strlit(" failed: ");
    let message = failed_message(call, detail);
    let n = call.len() as int;
    assert(message.take(n) =~= call);
    assert(message.subrange(n, n + 9) =~= seq![' ', 'f', 'a', 'i', 'l', 'e', 'd', ':', ' ']);
    assert(message.skip(n + 9) =~= detail);
}

/// A camera is found by every text that reads as a place below the count and by no other. A text
/// that is no number, or one that no place can have, is invalid; every other one is not found.
/// Both errors name the backend and the text.
pub proof fn cameras_are_found_by_their_places(
    backend: Seq<char>,
    raw_id: Seq<char>,
    count: nat,
)
    requires
        count <= usize::MAX,
    ensures
        match text::parsed(raw_id, false) {
            Some(n) if n <= usize::MAX => {
                &&& index_of_id(backend, raw_id) matches Ok(index) && index == n
                &&& n < count ==> (camera_of_id(backend, raw_id, count) matches Ok(index) && index
                    == n)
                &&& n >= count ==> camera_of_id(backend, raw_id, count) == Err::<
                    usize,
                    CameraErrorView,
                >(
                    CameraErrorView::CameraNotFound(
                        "camera not found: "@ + (backend.push(':') + raw_id),
                    ),
                )
            },
            _ => {
                let e = CameraErrorView::InvalidCameraId(
                    "invalid camera id: "@ + (backend.push(':') + raw_id),
                );
                &&& index_of_id(backend, raw_id) == Err::<usize, CameraErrorView>(e)
                &&& camera_of_id(backend, raw_id, count) == Err::<usize, CameraErrorView>(e)
            },
        },
{
    reveal_strlit(":");
    assert(qualified(backend, raw_id) =~= backend.push(':') + raw_id);
}

/// A camera that is put at the end of a list is listed, and so are those that were listed before;
/// its identifier is its place where it is the number of cameras before it.
pub proof fn a_list_grows_camera_by_camera(
    devices: Seq<CameraDevice>,
    device: CameraDevice,
    raw_id: Seq<char>,
)
    ensures
        !is_listed(Seq::empty(), raw_id),
        is_listed(devices.push(device), raw_id) <==> is_listed(devices, raw_id)
            || device.raw_id@ == raw_id,
        ids_are_places(Seq::empty()),
        ids_are_places(devices.push(device)) <==> ids_are_places(devices) && device.raw_id@
            == text::decimal(devices.len()),
{
    let all = devices.push(device);
    if is_listed(devices, raw_id) {
        let i = choose|i: int| 0 <= i < devices.len() && (#[trigger] devices[i]).raw_id@ == raw_id;
        assert(all[i].raw_id@ == raw_id);
    }
    if device.raw_id@ == raw_id {
        assert(all[devices.len() as int].raw_id@ == raw_id);
    }
    if is_listed(all, raw_id) {
        let i = choose|i: int| 0 <= i < all.len() && (#[trigger] all[i]).raw_id@ == raw_id;
        if i < devices.len() {
            assert(devices[i].raw_id@ == raw_id);
        }
    }
    if ids_are_places(all) {
        assert(all[devices.len() as int].raw_id@ == text::decimal(devices.len()));
        assert forall|i: int| 0 <= i < devices.len() implies (#[trigger] devices[i]).raw_id@
            == text::decimal(i as nat) by {
            assert(all[i].raw_id@ == text::decimal(i as nat));
        }
    }
    if ids_are_places(devices) && device.raw_id@ == text::decimal(devices.len()) {
        assert forall|i: int| 0 <= i < all.len() implies (#[trigger] all[i]).raw_id@
            == text::decimal(i as nat) by {
            if i < devices.len() {
                assert(devices[i].raw_id@ == text::decimal(i as nat));
            }
        }
    }
}

/// A session that has a frame gives it away at once. One that has none is asked again while
/// requests are left, and a frame is captured without it behind the last of twenty.
pub proof fn a_session_is_asked_until_it_has_a_frame(
    frame: Option<Vec<u8>>,
    left: nat,
    step: PollStep,
)
    ensures
        POLL_TRIES == 20,
        is_poll_step(frame, left, step) <==> match step {
            PollStep::Frame(given) => frame == Some(given),
            PollStep::WaitAndPoll => frame is None && left > 0,
            PollStep::WaitAndCapture => frame is None && left == 0,
        },
{
}

/// A session keeps a frame that was captured and, where the capture failed, the frame that it
/// had.
pub proof fn a_failed_capture_takes_no_frame_away(
    slot: Option<Seq<u8>>,
    frame: Seq<u8>,
    e: CameraErrorView,
)
    ensures
        kept(slot, Ok(frame)) == Some(frame),
        kept(slot, Err(e)) == slot,
{
}

/// The frame of a session is compared byte by byte.
pub proof fn slots_are_seen_by_what_they_hold(frame: Vec<u8>)
    ensures
        slot_view(Some(frame)) == Some(frame@),
        slot_view(None) is None,
{
}

}
