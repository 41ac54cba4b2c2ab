//! Canon EOS cameras.

use crate::backends::actor;
use crate::camera;
use crate::camera::{
    CameraError, CameraErrorView, CameraParameter, DeviceId, DeviceInfo, DeviceInfoView,
    ParameterOption,
};
use crate::sessions::SessionTable;
use crate::text;
use vstd::arithmetic::power2;
use vstd::prelude::*;

verus! {

/// The property that says where the camera shows its live view.
pub const PROP_EVF_OUTPUT_DEVICE: u32 = 0x00000500;

/// The value of that property for the host computer.
pub const EVF_OUTPUT_DEVICE_PC: u32 = 2;

// Shooting property IDs
pub const PROP_TV: u32 = 0x00000400;

pub const PROP_AV: u32 = 0x00000401;

pub const PROP_ISO: u32 = 0x00000402;

pub const PROP_WHITE_BALANCE: u32 = 0x00000106;

pub const PROP_COLOR_TEMPERATURE: u32 = 0x00000107;

pub const PROP_METERING_MODE: u32 = 0x00000413;

pub const PROP_AF_MODE: u32 = 0x00000304;

pub const PROP_DRIVE_MODE: u32 = 0x00000224;

pub const PROP_EXPOSURE_COMP: u32 = 0x00000416;

/// A reference to a camera that the SDK handed out. Whoever holds it has to release it.
pub type CameraRef = u64;

/// What the SDK said about one place of its camera list.
#[derive(Debug, PartialEq, Eq)]
pub enum CameraSlot {
    /// The camera could not be had.
    Missing,
    /// The camera could be had and did not describe itself.
    Unknown(CameraRef),
    /// The camera and the C buffers with the name of its port and its own name.
    Described { camera: CameraRef, port: Vec<u8>, description: Vec<u8> },
}

/// What became of the search for a camera.
#[derive(Debug, PartialEq, Eq)]
pub struct CameraSearch {
    /// The camera, which the caller now holds.
    pub found: Result<CameraRef, CameraError>,
    /// The cameras that are to be released.
    pub release: Vec<CameraRef>,
}

/// What opening a session with a camera asks for next.
#[derive(Debug, PartialEq, Eq)]
pub enum ConnectStep {
    /// Looks the camera up in the camera list.
    FindCamera,
    /// Opens a session with the camera.
    OpenSession(CameraRef),
    /// Sets the property `property` of the camera to `value`.
    SetProperty { camera: CameraRef, property: u32, value: u32 },
    /// Closes the session with `close`, releases `release`, and answers `result`.
    Finish {
        close: Option<CameraRef>,
        release: Option<CameraRef>,
        result: Result<(), CameraError>,
    },
}

/// The calls that fetch a live view frame, in their order.
#[derive(Debug, Clone, Copy, PartialEq, Eq, Structural)]
pub enum LiveViewCall {
    CreateStream,
    CreateImage,
    Download,
}

/// What fetching a live view frame asks for next.
#[derive(Debug, PartialEq, Eq)]
pub enum LiveViewStep {
    Call(LiveViewCall),
    /// Copies the frame out of the stream, then releases the image and the stream.
    CopyFrame,
    /// Releases the image and the stream where they are to be, and answers the error.
    Fail { release_image: bool, release_stream: bool, error: CameraError },
}

/// What a camera said about one of its properties.
#[derive(Debug, PartialEq, Eq)]
pub struct PropertyReading {
    /// The status of reading the description.
    pub description_status: u32,
    /// Zero where the property cannot be set.
    pub access: u32,
    /// How many of the codes are allowed now.
    pub num_elements: i32,
    pub codes: Vec<i32>,
    /// The status of reading the current code.
    pub current_status: u32,
    pub current_code: i32,
}

/// The properties of a camera that are offered as parameters.
#[derive(Debug, Clone, Copy, PartialEq, Eq, Structural)]
pub enum CanonProperty {
    Aperture,
    ShutterSpeed,
    Iso,
    WhiteBalance,
    ColorTemperature,
    MeteringMode,
    AfMode,
    DriveMode,
    ExposureCompensation,
}

/// Canon EOS backend: the sessions that are open on its SDK thread.
pub struct CanonBackend {
    sessions: SessionTable<CameraRef>,
}

impl View for CanonBackend {
    type V = Map<Seq<char>, CameraRef>;

    closed spec fn view(&self) -> Map<Seq<char>, CameraRef> {
        self.sessions@
    }
}

/// What an SDK call with this status gives: zero is success, and every other one is an error.
pub fn checked(status: u32) -> (r: Result<(), CameraError>)
    ensures
        match r {
            Ok(_) => status == 0,
            Err(e) => status != 0 && e@ == CameraErrorView::SdkError(status),
        },
{
    if status == 0 {
        Ok(())
    } else {
        Err(CameraError::SdkError(status))
    }
}

/// What the list of cameras is read for.
#[derive(Debug, Clone, Copy, PartialEq, Eq, Structural)]
pub enum ListPurpose {
    /// All cameras are asked for.
    Listing,
    /// A camera is searched for.
    Searching,
}

/// How many cameras are read from the list, of the status and the count that the SDK gave. A
/// count that failed is an error where the cameras are listed; a search goes by the count even
/// so.
pub fn camera_count(status: u32, count: u32, purpose: ListPurpose) -> (r: Result<u32, CameraError>)
    ensures
        camera::viewed_plain(r) == if status != 0 && purpose == ListPurpose::Listing {
            Err::<u32, CameraErrorView>(CameraErrorView::SdkError(status))
        } else {
            Ok(count)
        },
{
    if purpose == ListPurpose::Listing {
        match checked(status) {
            Ok(()) => Ok(count),
            Err(e) => Err(e),
        }
    } else {
        Ok(count)
    }
}

// ---------------------------------------------------------------------------
// Listing and finding cameras
// ---------------------------------------------------------------------------

/// What clients are told about a camera.
pub open spec fn device_at(
    sessions: Map<Seq<char>, CameraRef>,
    port: Seq<u8>,
    description: Seq<u8>,
) -> DeviceInfoView {
    DeviceInfoView {
        id: camera::encoded_id("canon"@, text::c_text(port)),
        name: text::c_text(description),
        connected: sessions.dom().contains(text::c_text(port)),
    }
}

/// The cameras that clients are told about: those that described themselves.
pub open spec fn devices_in(
    sessions: Map<Seq<char>, CameraRef>,
    slots: Seq<CameraSlot>,
) -> Seq<DeviceInfoView>
    decreases slots.len(),
{
    if slots.len() == 0 {
        Seq::empty()
    } else {
        let before = devices_in(sessions, slots.drop_last());
        match slots.last() {
            CameraSlot::Described { port, description, .. } => before.push(
                device_at(sessions, port@, description@),
            ),
            _ => before,
        }
    }
}

/// Whether a slot holds the camera on the port `device_id`.
pub open spec fn is_on_port(slot: CameraSlot, device_id: Seq<char>) -> bool {
    slot matches CameraSlot::Described { port, .. } && text::c_text(port@) == device_id
}

/// The camera in a slot.
pub open spec fn camera_in(slot: CameraSlot) -> Option<CameraRef> {
    match slot {
        CameraSlot::Missing => None,
        CameraSlot::Unknown(camera) => Some(camera),
        CameraSlot::Described { camera, .. } => Some(camera),
    }
}

/// All cameras that were handed out with the slots.
pub open spec fn cameras_in(slots: Seq<CameraSlot>) -> Seq<CameraRef>
    decreases slots.len(),
{
    if slots.len() == 0 {
        Seq::empty()
    } else {
        match camera_in(slots.last()) {
            Some(camera) => cameras_in(slots.drop_last()).push(camera),
            None => cameras_in(slots.drop_last()),
        }
    }
}

/// The camera on the port `device_id`; the last one where there are several.
pub open spec fn camera_on_port(slots: Seq<CameraSlot>, device_id: Seq<char>) -> Option<CameraRef>
    decreases slots.len(),
{
    if slots.len() == 0 {
        None
    } else if is_on_port(slots.last(), device_id) {
        camera_in(slots.last())
    } else {
        camera_on_port(slots.drop_last(), device_id)
    }
}

/// The cameras on other ports.
pub open spec fn other_cameras(slots: Seq<CameraSlot>, device_id: Seq<char>) -> Seq<CameraRef>
    decreases slots.len(),
{
    if slots.len() == 0 {
        Seq::empty()
    } else if is_on_port(slots.last(), device_id) {
        other_cameras(slots.drop_last(), device_id)
    } else {
        match camera_in(slots.last()) {
            Some(camera) => other_cameras(slots.drop_last(), device_id).push(camera),
            None => other_cameras(slots.drop_last(), device_id),
        }
    }
}

/// Looks for the camera on the port `device_id` and says which cameras to release.
pub fn find_camera(slots: &Vec<CameraSlot>, device_id: &str) -> (search: CameraSearch)
    ensures
        search.release@ == other_cameras(slots@, device_id@),
        camera::viewed_plain(search.found) == match camera_on_port(slots@, device_id@) {
            Some(camera) => Ok::<CameraRef, CameraErrorView>(camera),
            None => Err(CameraErrorView::DeviceNotFound(device_id@)),
        },
{
    let mut found: Option<CameraRef> = None;
    let mut release: Vec<CameraRef> = Vec::new();
    let mut i: usize = 0;
    assert(slots@.take(0) =~= Seq::empty());
    while i < slots.len()
        invariant
            i <= slots@.len(),
            found == camera_on_port(slots@.take(i as int), device_id@),
            release@ == other_cameras(slots@.take(i as int), device_id@),
        decreases slots@.len() - i,
    {
        assert(slots@.take(i + 1).drop_last() =~= slots@.take(i as int));
        match &slots[i] {
            CameraSlot::Missing => {},
            CameraSlot::Unknown(camera) => {
                release.push(*camera);
            },
            CameraSlot::Described { camera, port, .. } => {
                let port = text::c_buffer_text(port.as_slice());
                if text::same_text(port.as_str(), device_id) {
                    found = Some(*camera);
                } else {
                    release.push(*camera);
                }
            },
        }
        i += 1;
    }
    assert(slots@.take(i as int) =~= slots@);
    let found = match found {
        Some(camera) => Ok(camera),
        None => Err(CameraError::DeviceNotFound(device_id.to_owned())),
    };
    CameraSearch { found, release }
}

/// Where no two cameras are on one port, the search keeps the camera that it found and has all
/// others released: no reference is lost, and none is released twice.
pub proof fn search_accounts_for_every_camera(slots: Seq<CameraSlot>, device_id: Seq<char>)
    requires
        forall|i: int, j: int|
            0 <= i < j < slots.len() ==> !(#[trigger] is_on_port(slots[i], device_id)
                && #[trigger] is_on_port(slots[j], device_id)),
    ensures
        cameras_in(slots).to_multiset() == match camera_on_port(slots, device_id) {
            Some(camera) => other_cameras(slots, device_id).to_multiset().insert(camera),
            None => other_cameras(slots, device_id).to_multiset(),
        },
        camera_on_port(slots, device_id) is Some <==> exists|i: int|
            0 <= i < slots.len() && #[trigger] is_on_port(slots[i], device_id),
    decreases slots.len(),
{
    broadcast use vstd::seq_lib::group_to_multiset_ensures;

    if slots.len() > 0 {
        let front = slots.drop_last();
        let last = slots.len() - 1;
        assert forall|i: int, j: int| 0 <= i < j < front.len() implies !(#[trigger] is_on_port(
            front[i],
            device_id,
        ) && #[trigger] is_on_port(front[j], device_id)) by {
            assert(front[i] == slots[i] && front[j] == slots[j]);
        }
        search_accounts_for_every_camera(front, device_id);
        assert forall|i: int| 0 <= i < front.len() implies front[i] == slots[i] by {}
        if is_on_port(slots[last], device_id) {
            assert forall|i: int| 0 <= i < front.len() implies !#[trigger] is_on_port(
                front[i],
                device_id,
            ) by {
                assert(!(is_on_port(slots[i], device_id) && is_on_port(slots[last], device_id)));
            }
        } else {
            if camera_on_port(slots, device_id) is Some {
                let i = choose|i: int|
                    0 <= i < front.len() && #[trigger] is_on_port(front[i], device_id);
                assert(is_on_port(slots[i], device_id));
            }
            if exists|i: int| 0 <= i < slots.len() && #[trigger] is_on_port(slots[i], device_id) {
                let i = choose|i: int|
                    0 <= i < slots.len() && #[trigger] is_on_port(slots[i], device_id);
                assert(is_on_port(front[i], device_id));
            }
            match camera_on_port(slots, device_id) {
                Some(camera) => {
                    match camera_in(slots[last]) {
                        Some(other) => {
                            assert(other_cameras(front, device_id).to_multiset().insert(
                                camera,
                            ).insert(other) =~= other_cameras(front, device_id).to_multiset().insert(
                                other,
                            ).insert(camera));
                        },
                        None => {},
                    }
                },
                None => {},
            }
        }
    }
}

// ---------------------------------------------------------------------------
// Opening a session
// ---------------------------------------------------------------------------

/// How opening a session begins.
pub open spec fn connect_step(
    sessions: Map<Seq<char>, CameraRef>,
    device_id: Seq<char>,
) -> ConnectStep {
    if sessions.dom().contains(device_id) {
        ConnectStep::Finish { close: None, release: None, result: Ok(()) }
    } else {
        ConnectStep::FindCamera
    }
}

/// What the search for the camera leads to.
pub open spec fn found_step(found: Result<CameraRef, CameraError>) -> ConnectStep {
    match found {
        Ok(camera) => ConnectStep::OpenSession(camera),
        Err(e) => ConnectStep::Finish { close: None, release: None, result: Err(e) },
    }
}

/// What the status of opening the session leads to: live view is sent to the host, or the
/// camera is released.
pub open spec fn opened_step(camera: CameraRef, status: u32) -> ConnectStep {
    if status == 0 {
        ConnectStep::SetProperty {
            camera,
            property: PROP_EVF_OUTPUT_DEVICE,
            value: EVF_OUTPUT_DEVICE_PC,
        }
    } else {
        ConnectStep::Finish {
            close: None,
            release: Some(camera),
            result: Err(CameraError::SdkError(status)),
        }
    }
}

/// What the status of setting the live view output leads to: the session is kept, or it is
/// closed and the camera released.
pub open spec fn enabled_step(camera: CameraRef, status: u32) -> ConnectStep {
    if status == 0 {
        ConnectStep::Finish { close: None, release: None, result: Ok(()) }
    } else {
        ConnectStep::Finish {
            close: Some(camera),
            release: Some(camera),
            result: Err(CameraError::SdkError(status)),
        }
    }
}

/// The sessions behind the last step.
pub open spec fn enabled_sessions(
    sessions: Map<Seq<char>, CameraRef>,
    device_id: Seq<char>,
    camera: CameraRef,
    status: u32,
) -> Map<Seq<char>, CameraRef> {
    if status == 0 {
        sessions.insert(device_id, camera)
    } else {
        sessions
    }
}

/// What came of opening a session.
pub struct ConnectRun {
    /// The sessions that are open behind it.
    pub sessions: Map<Seq<char>, CameraRef>,
    /// Whether the camera list was searched.
    pub searched: bool,
    /// The camera with which a session was opened.
    pub opened: Option<CameraRef>,
    /// The step that ended it.
    pub last: ConnectStep,
}

/// Opening a session from its first step to its last, of what each call on the way gives.
pub open spec fn connect_run(
    sessions: Map<Seq<char>, CameraRef>,
    device_id: Seq<char>,
    found: Result<CameraRef, CameraError>,
    open_status: u32,
    live_view_status: u32,
) -> ConnectRun {
    match connect_step(sessions, device_id) {
        ConnectStep::FindCamera => match found_step(found) {
            ConnectStep::OpenSession(camera) => match opened_step(camera, open_status) {
                ConnectStep::SetProperty { camera, .. } => ConnectRun {
                    sessions: enabled_sessions(sessions, device_id, camera, live_view_status),
                    searched: true,
                    opened: Some(camera),
                    last: enabled_step(camera, live_view_status),
                },
                last => ConnectRun { sessions, searched: true, opened: None, last },
            },
            last => ConnectRun { sessions, searched: true, opened: None, last },
        },
        last => ConnectRun { sessions, searched: false, opened: None, last },
    }
}

/// Connecting a connected device changes nothing and asks nothing of the SDK.
pub proof fn connect_is_idempotent(
    sessions: Map<Seq<char>, CameraRef>,
    device_id: Seq<char>,
    found: Result<CameraRef, CameraError>,
    open_status: u32,
    live_view_status: u32,
)
    requires
        sessions.dom().contains(device_id),
    ensures
        ({
            let run = connect_run(sessions, device_id, found, open_status, live_view_status);
            &&& run.sessions == sessions
            &&& !run.searched
            &&& run.opened is None
            &&& run.last == (ConnectStep::Finish { close: None, release: None, result: Ok(()) })
        }),
{
}

/// Connecting a device ends with an answer. It succeeds exactly where the device is connected
/// behind it, fails with the sessions as they were, and never touches those of other devices.
pub proof fn connect_opens_one_session(
    sessions: Map<Seq<char>, CameraRef>,
    device_id: Seq<char>,
    found: Result<CameraRef, CameraError>,
    open_status: u32,
    live_view_status: u32,
)
    ensures
        ({
            let run = connect_run(sessions, device_id, found, open_status, live_view_status);
            &&& run.last is Finish
            &&& run.last->result is Ok <==> run.sessions.dom().contains(device_id)
            &&& run.last->result is Err ==> run.sessions == sessions
            &&& run.sessions.remove(device_id) == sessions.remove(device_id)
        }),
{
    let run = connect_run(sessions, device_id, found, open_status, live_view_status);
    assert(run.sessions.remove(device_id) =~= sessions.remove(device_id));
}

/// What opening a session gives, of what each call on the way gives.
pub open spec fn opening(
    found: Result<CameraRef, CameraError>,
    open_status: u32,
    live_view_status: u32,
) -> Result<CameraRef, CameraErrorView> {
    match found {
        Err(e) => Err(e@),
        Ok(camera) => if open_status != 0 {
            Err(CameraErrorView::SdkError(open_status))
        } else if live_view_status != 0 {
            Err(CameraErrorView::SdkError(live_view_status))
        } else {
            Ok(camera)
        },
    }
}

/// Connecting a device is the turn of a backend thread that serves the command, and so all that
/// holds of the run of such a thread holds here.
pub proof fn connect_is_a_turn_of_the_thread(
    sessions: Map<Seq<char>, CameraRef>,
    device_id: Seq<char>,
    found: Result<CameraRef, CameraError>,
    open_status: u32,
    live_view_status: u32,
)
    ensures
        ({
            let run = connect_run(sessions, device_id, found, open_status, live_view_status);
            &&& run.last is Finish
            &&& (run.sessions, camera::viewed_plain(run.last->result)) == actor::connect_turn(
                sessions,
                device_id,
                opening(found, open_status, live_view_status),
            )
        }),
{
}

/// A camera that was found is either kept in the session table or released, not both; a
/// session that was opened is either kept or closed, not both.
pub proof fn connect_releases_what_it_does_not_keep(
    sessions: Map<Seq<char>, CameraRef>,
    device_id: Seq<char>,
    camera: CameraRef,
    open_status: u32,
    live_view_status: u32,
)
    requires
        !sessions.dom().contains(device_id),
    ensures
        ({
            let run = connect_run(sessions, device_id, Ok(camera), open_status, live_view_status);
            let kept = run.sessions.dom().contains(device_id) && run.sessions[device_id] == camera;
            &&& run.last->release == (if kept {
                None
            } else {
                Some(camera)
            })
            &&& run.last->close == (if kept {
                None
            } else {
                run.opened
            })
            &&& kept ==> run.opened == Some(camera)
        }),
{
}

/// Disconnecting a device that was just connected hands out its camera and leaves the sessions
/// as they were before.
pub proof fn disconnect_undoes_connect(
    sessions: Map<Seq<char>, CameraRef>,
    device_id: Seq<char>,
    camera: CameraRef,
)
    requires
        !sessions.dom().contains(device_id),
    ensures
        ({
            let run = connect_run(sessions, device_id, Ok(camera), 0, 0);
            &&& run.last->result is Ok
            &&& run.sessions[device_id] == camera
            &&& run.sessions.remove(device_id) == sessions
        }),
{
    let run = connect_run(sessions, device_id, Ok(camera), 0, 0);
    assert(run.sessions.remove(device_id) =~= sessions);
}

/// What the search for the camera leads to.
pub fn camera_found(found: Result<CameraRef, CameraError>) -> (step: ConnectStep)
    ensures
        step == found_step(found),
{
    match found {
        Ok(camera) => ConnectStep::OpenSession(camera),
        Err(e) => ConnectStep::Finish { close: None, release: None, result: Err(e) },
    }
}

/// What the status of opening the session leads to.
pub fn session_opened(camera: CameraRef, status: u32) -> (step: ConnectStep)
    ensures
        step == opened_step(camera, status),
{
    if status == 0 {
        ConnectStep::SetProperty {
            camera,
            property: PROP_EVF_OUTPUT_DEVICE,
            value: EVF_OUTPUT_DEVICE_PC,
        }
    } else {
        ConnectStep::Finish {
            close: None,
            release: Some(camera),
            result: Err(CameraError::SdkError(status)),
        }
    }
}

// ---------------------------------------------------------------------------
// Live view
// ---------------------------------------------------------------------------

/// What the status of a call leads to: the next one, or the release of what the calls before
/// it created.
pub open spec fn live_view_step(call: LiveViewCall, status: u32) -> LiveViewStep {
    if status != 0 {
        LiveViewStep::Fail {
            release_image: call == LiveViewCall::Download,
            release_stream: call != LiveViewCall::CreateStream,
            error: CameraError::SdkError(status),
        }
    } else {
        match call {
            LiveViewCall::CreateStream => LiveViewStep::Call(LiveViewCall::CreateImage),
            LiveViewCall::CreateImage => LiveViewStep::Call(LiveViewCall::Download),
            LiveViewCall::Download => LiveViewStep::CopyFrame,
        }
    }
}

/// What the status of a call on the way to a live view frame leads to.
pub fn live_view_next(call: LiveViewCall, status: u32) -> (step: LiveViewStep)
    ensures
        step == live_view_step(call, status),
{
    if status != 0 {
        LiveViewStep::Fail {
            release_image: match call {
                LiveViewCall::Download => true,
                _ => false,
            },
            release_stream: match call {
                LiveViewCall::CreateStream => false,
                _ => true,
            },
            error: CameraError::SdkError(status),
        }
    } else {
        match call {
            LiveViewCall::CreateStream => LiveViewStep::Call(LiveViewCall::CreateImage),
            LiveViewCall::CreateImage => LiveViewStep::Call(LiveViewCall::Download),
            LiveViewCall::Download => LiveViewStep::CopyFrame,
        }
    }
}

/// The last step of fetching a frame from a connected camera, of the statuses of its calls.
pub open spec fn live_view_run(stream: u32, image: u32, download: u32) -> LiveViewStep {
    match live_view_step(LiveViewCall::CreateStream, stream) {
        LiveViewStep::Call(second) => match live_view_step(second, image) {
            LiveViewStep::Call(third) => live_view_step(third, download),
            last => last,
        },
        last => last,
    }
}

/// A frame is copied exactly where every call succeeds. Otherwise the status of the first call
/// that failed is answered, and what the calls before it created is released.
pub proof fn live_view_releases_what_it_created(stream: u32, image: u32, download: u32)
    ensures
        match live_view_run(stream, image, download) {
            LiveViewStep::CopyFrame => stream == 0 && image == 0 && download == 0,
            LiveViewStep::Fail { release_image, release_stream, error } => {
                &&& release_stream == (stream == 0)
                &&& release_image == (stream == 0 && image == 0)
                &&& error == CameraError::SdkError(
                    if stream != 0 {
                        stream
                    } else if image != 0 {
                        image
                    } else {
                        download
                    },
                )
                &&& !(stream == 0 && image == 0 && download == 0)
            },
            LiveViewStep::Call(_) => false,
        },
{
}

impl CanonBackend {
    /// A backend on which no session is open, where its SDK thread started with this status;
    /// `None` stands for a thread that never answered.
    pub fn new(started: Option<u32>) -> (backend: Result<Self, CameraError>)
        ensures
            match backend {
                Ok(b) => started == Some(0u32) && b@ == Map::<Seq<char>, CameraRef>::empty(),
                Err(e) => started != Some(0u32) && e@ == CameraErrorView::SdkError(
                    match started {
                        Some(status) => status,
                        None => actor::THREAD_LOST,
                    },
                ),
            },
    {
        let status: u32 = match started {
            Some(status) => status,
            None => actor::THREAD_LOST,
        };
        match checked(status) {
            Ok(_) => Ok(CanonBackend { sessions: SessionTable::new() }),
            Err(e) => Err(e),
        }
    }

    pub fn backend_id(&self) -> (id: &str)
        ensures
            id@ == "canon"@,
    {
        "canon"
    }

    pub fn is_connected(&self, native_id: &str) -> (yes: bool)
        ensures
            yes == self@.dom().contains(native_id@),
    {
        self.sessions.contains(native_id)
    }

    /// The devices in the camera list, or the error with which the list could not be read.
    pub fn list_devices(&self, slots: Result<Vec<CameraSlot>, CameraError>) -> (devices: Result<
        Vec<DeviceInfo>,
        CameraError,
    >)
        ensures
            match slots {
                Ok(slots) => devices matches Ok(d) && d@.map_values(|i: DeviceInfo| i@)
                    == devices_in(self@, slots@),
                Err(e) => devices == Err::<Vec<DeviceInfo>, CameraError>(e),
            },
    {
        let slots = match slots {
            Ok(slots) => slots,
            Err(e) => {
                return Err(e);
            },
        };
        let mut devices: Vec<DeviceInfo> = Vec::new();
        let mut i: usize = 0;
        assert(slots@.take(0) =~= Seq::empty());
        assert(devices@.map_values(|i: DeviceInfo| i@) =~= devices_in(self@, slots@.take(0)));
        while i < slots.len()
            invariant
                i <= slots@.len(),
                devices@.map_values(|i: DeviceInfo| i@) == devices_in(
                    self@,
                    slots@.take(i as int),
                ),
            decreases slots@.len() - i,
        {
            assert(slots@.take(i + 1).drop_last() =~= slots@.take(i as int));
            if let CameraSlot::Described { port, description, .. } = &slots[i] {
                let name = text::c_buffer_text(description.as_slice());
                let port = text::c_buffer_text(port.as_slice());
                let id = DeviceId::new("canon", port.as_str()).encode();
                let connected = self.sessions.contains(port.as_str());
                let ghost before = devices@;
                devices.push(DeviceInfo { id, name, connected });
                assert(devices@.map_values(|i: DeviceInfo| i@) =~= before.map_values(
                    |i: DeviceInfo| i@,
                ).push(devices@.last()@));
            }
            i += 1;
        }
        assert(slots@.take(i as int) =~= slots@);
        Ok(devices)
    }

    /// Begins to open a session; where one is open already there is nothing to do.
    pub fn connect(&self, device_id: &str) -> (step: ConnectStep)
        ensures
            step == connect_step(self@, device_id@),
    {
        if self.sessions.contains(device_id) {
            ConnectStep::Finish { close: None, release: None, result: Ok(()) }
        } else {
            ConnectStep::FindCamera
        }
    }

    /// What the status of setting the live view output leads to: the session is kept, or it is
    /// closed and the camera released.
    pub fn live_view_enabled(&mut self, device_id: &str, camera: CameraRef, status: u32) -> (step:
        ConnectStep)
        ensures
            final(self)@ == enabled_sessions(old(self)@, device_id@, camera, status),
            step == enabled_step(camera, status),
    {
        if status == 0 {
            self.sessions.insert(device_id, camera);
            ConnectStep::Finish { close: None, release: None, result: Ok(()) }
        } else {
            ConnectStep::Finish {
                close: Some(camera),
                release: Some(camera),
                result: Err(CameraError::SdkError(status)),
            }
        }
    }

    /// Takes the session of a device out; its camera is to be closed and released.
    pub fn disconnect(&mut self, device_id: &str) -> (camera: Result<CameraRef, CameraError>)
        ensures
            (final(self)@, camera::viewed_plain(camera)) == actor::disconnect_turn(
                old(self)@,
                device_id@,
            ),
    {
        assert(!self@.dom().contains(device_id@) ==> self@.remove(device_id@) =~= self@);
        match self.sessions.remove(device_id) {
            Some(camera) => Ok(camera),
            None => Err(CameraError::DeviceNotFound(device_id.to_owned())),
        }
    }

    /// The camera of an open session.
    pub fn session(&self, device_id: &str) -> (camera: Result<CameraRef, CameraError>)
        ensures
            camera::viewed_plain(camera) == if self@.dom().contains(device_id@) {
                Ok(self@[device_id@])
            } else {
                Err(CameraErrorView::NotConnected)
            },
    {
        match self.sessions.get(device_id) {
            Some(camera) => Ok(*camera),
            None => Err(CameraError::NotConnected),
        }
    }

    /// Ends the backend; the cameras of all open sessions are to be closed and released.
    pub fn shut_down(self) -> (sessions: Vec<(String, CameraRef)>)
        ensures
            crate::sessions::distinct_devices(sessions@),
            crate::sessions::entry_map(sessions@) == self@,
    {
        self.sessions.into_entries()
    }

    /// The parameters of a device, of what its camera said about each of the properties that
    /// [`properties`] lists.
    pub fn get_parameters(&self, device_id: &str, readings: &Vec<PropertyReading>) -> (parameters:
        Result<Vec<CameraParameter>, CameraError>)
        requires
            readings@.len() == property_list().len(),
            forall|i: int| 0 <= i < readings@.len() ==> (#[trigger] readings@[i]).is_complete(),
        ensures
            match parameters {
                Ok(p) => self@.dom().contains(device_id@) && p@.map_values(
                    |q: CameraParameter| parameter_view(q),
                ) == parameters_in(readings@),
                Err(e) => !self@.dom().contains(device_id@) && e@ == CameraErrorView::NotConnected,
            },
    {
        match self.session(device_id) {
            Ok(_) => {},
            Err(e) => {
                return Err(e);
            },
        }
        Ok(parameters_of(readings))
    }

    /// Parameters of Canon cameras cannot be set.
    pub fn set_parameter(&self, native_id: &str, kind: &str, value: i32) -> (r: Result<
        (),
        CameraError,
    >)
        ensures
            r matches Err(e) && e@ == CameraErrorView::NotSupported,
    {
        Err(CameraError::NotSupported)
    }
}

// ---------------------------------------------------------------------------
// Parameters
// ---------------------------------------------------------------------------

/// The mathematical content of a [`CameraParameter`].
pub struct ParameterView {
    pub kind: Seq<char>,
    pub current: Seq<char>,
    pub options: Seq<(Seq<char>, i32)>,
    pub min: Option<i32>,
    pub max: Option<i32>,
    pub step: Option<i32>,
}

pub open spec fn parameter_view(p: CameraParameter) -> ParameterView {
    ParameterView {
        kind: p.kind@,
        current: p.current@,
        options: p.options@.map_values(|o: ParameterOption| (o.label@, o.value)),
        min: p.min,
        max: p.max,
        step: p.step,
    }
}

/// The properties that are offered, in the order in which they are listed.
pub open spec fn property_list() -> Seq<CanonProperty> {
    seq![
        CanonProperty::Aperture,
        CanonProperty::ShutterSpeed,
        CanonProperty::Iso,
        CanonProperty::WhiteBalance,
        CanonProperty::ColorTemperature,
        CanonProperty::MeteringMode,
        CanonProperty::AfMode,
        CanonProperty::DriveMode,
        CanonProperty::ExposureCompensation,
    ]
}

/// The properties that are offered, in the order in which they are listed.
pub fn properties() -> (list: Vec<CanonProperty>)
    ensures
        list@ == property_list(),
{
    let list = vec![
        CanonProperty::Aperture,
        CanonProperty::ShutterSpeed,
        CanonProperty::Iso,
        CanonProperty::WhiteBalance,
        CanonProperty::ColorTemperature,
        CanonProperty::MeteringMode,
        CanonProperty::AfMode,
        CanonProperty::DriveMode,
        CanonProperty::ExposureCompensation,
    ];
    assert(list@ =~= property_list());
    list
}

impl CanonProperty {
    /// The name of the parameter in the API.
    pub open spec fn kind(self) -> Seq<char> {
        match self {
            CanonProperty::Aperture => "aperture"@,
            CanonProperty::ShutterSpeed => "shutter_speed"@,
            CanonProperty::Iso => "iso"@,
            CanonProperty::WhiteBalance => "white_balance"@,
            CanonProperty::ColorTemperature => "color_temperature"@,
            CanonProperty::MeteringMode => "metering_mode"@,
            CanonProperty::AfMode => "af_mode"@,
            CanonProperty::DriveMode => "drive_mode"@,
            CanonProperty::ExposureCompensation => "exposure_compensation"@,
        }
    }

    /// The label of one of the codes of the property.
    pub open spec fn label(self, code: i32) -> Seq<char> {
        match self {
            CanonProperty::Aperture => av_label(code),
            CanonProperty::ShutterSpeed => tv_label(code),
            CanonProperty::Iso => iso_label(code),
            CanonProperty::WhiteBalance => wb_label(code),
            CanonProperty::ColorTemperature => color_temp_label(code),
            CanonProperty::MeteringMode => metering_label(code),
            CanonProperty::AfMode => af_label(code),
            CanonProperty::DriveMode => drive_label(code),
            CanonProperty::ExposureCompensation => ev_label(code),
        }
    }

    /// The name of the parameter in the API.
    pub fn name(self) -> (name: &'static str)
        ensures
            name@ == self.kind(),
    {
        match self {
            CanonProperty::Aperture => "aperture",
            CanonProperty::ShutterSpeed => "shutter_speed",
            CanonProperty::Iso => "iso",
            CanonProperty::WhiteBalance => "white_balance",
            CanonProperty::ColorTemperature => "color_temperature",
            CanonProperty::MeteringMode => "metering_mode",
            CanonProperty::AfMode => "af_mode",
            CanonProperty::DriveMode => "drive_mode",
            CanonProperty::ExposureCompensation => "exposure_compensation",
        }
    }

    /// The number of the property in the SDK.
    pub fn id(self) -> (id: u32)
        ensures
            id == match self {
                CanonProperty::Aperture => PROP_AV,
                CanonProperty::ShutterSpeed => PROP_TV,
                CanonProperty::Iso => PROP_ISO,
                CanonProperty::WhiteBalance => PROP_WHITE_BALANCE,
                CanonProperty::ColorTemperature => PROP_COLOR_TEMPERATURE,
                CanonProperty::MeteringMode => PROP_METERING_MODE,
                CanonProperty::AfMode => PROP_AF_MODE,
                CanonProperty::DriveMode => PROP_DRIVE_MODE,
                CanonProperty::ExposureCompensation => PROP_EXPOSURE_COMP,
            },
    {
        match self {
            CanonProperty::Aperture => PROP_AV,
            CanonProperty::ShutterSpeed => PROP_TV,
            CanonProperty::Iso => PROP_ISO,
            CanonProperty::WhiteBalance => PROP_WHITE_BALANCE,
            CanonProperty::ColorTemperature => PROP_COLOR_TEMPERATURE,
            CanonProperty::MeteringMode => PROP_METERING_MODE,
            CanonProperty::AfMode => PROP_AF_MODE,
            CanonProperty::DriveMode => PROP_DRIVE_MODE,
            CanonProperty::ExposureCompensation => PROP_EXPOSURE_COMP,
        }
    }

    /// The label of one of the codes of the property.
    pub fn decode(self, code: i32) -> (label: String)
        ensures
            label@ == self.label(code),
    {
        match self {
            CanonProperty::Aperture => decode_av(code),
            CanonProperty::ShutterSpeed => decode_tv(code),
            CanonProperty::Iso => decode_iso(code),
            CanonProperty::WhiteBalance => decode_wb(code),
            CanonProperty::ColorTemperature => decode_color_temp(code),
            CanonProperty::MeteringMode => decode_metering(code),
            CanonProperty::AfMode => decode_af(code),
            CanonProperty::DriveMode => decode_drive(code),
            CanonProperty::ExposureCompensation => decode_ev(code),
        }
    }
}

/// Whether a described property is offered: the description could be read, the property can
/// be set, and there is something to set it to.
pub open spec fn is_offered(status: u32, access: u32, num_elements: i32) -> bool {
    status == 0 && num_elements > 0 && access != 0
}

/// Whether a described property is offered. Only then is its current code read.
pub fn offered(status: u32, access: u32, num_elements: i32) -> (yes: bool)
    ensures
        yes == is_offered(status, access, num_elements),
{
    !(status != 0 || num_elements <= 0 || access == 0)
}

impl PropertyReading {
    pub open spec fn is_offered(self) -> bool {
        is_offered(self.description_status, self.access, self.num_elements)
    }

    /// Whether the allowed codes of an offered property are all there.
    pub open spec fn is_complete(self) -> bool {
        self.is_offered() ==> self.num_elements <= self.codes@.len()
    }
}

/// The parameter that an offered property becomes: each allowed code with its label, and the
/// label of the current code, if that could be read.
pub open spec fn parameter_in(property: CanonProperty, reading: PropertyReading) -> ParameterView {
    ParameterView {
        kind: property.kind(),
        current: if reading.current_status == 0 {
            property.label(reading.current_code)
        } else {
            "Unknown"@
        },
        options: reading.codes@.take(reading.num_elements as int).map_values(
            |code: i32| (property.label(code), code),
        ),
        min: None,
        max: None,
        step: None,
    }
}

/// The parameters that the first properties of the list become.
pub open spec fn parameters_in(readings: Seq<PropertyReading>) -> Seq<ParameterView>
    decreases readings.len(),
{
    if readings.len() == 0 {
        Seq::empty()
    } else {
        let before = parameters_in(readings.drop_last());
        if readings.last().is_offered() {
            before.push(parameter_in(property_list()[readings.len() - 1], readings.last()))
        } else {
            before
        }
    }
}

/// Canon parameters are discrete: they offer at least one option and have no range.
pub proof fn canon_parameters_are_discrete(readings: Seq<PropertyReading>)
    requires
        forall|i: int| 0 <= i < readings.len() ==> (#[trigger] readings[i]).is_complete(),
    ensures
        forall|i: int|
            0 <= i < parameters_in(readings).len() ==> {
                let p = #[trigger] parameters_in(readings)[i];
                p.options.len() > 0 && p.min is None && p.max is None && p.step is None
            },
    decreases readings.len(),
{
    if readings.len() > 0 {
        let front = readings.drop_last();
        assert forall|i: int| 0 <= i < front.len() implies (#[trigger] front[i]).is_complete() by {
            assert(readings[i].is_complete());
        }
        canon_parameters_are_discrete(front);
        assert(readings[readings.len() - 1].is_complete());
    }
}

/// What is sent to clients as the current value is the label of one of the options wherever
/// the current code is one of the allowed codes.
pub proof fn current_label_is_one_of_the_options(
    property: CanonProperty,
    reading: PropertyReading,
)
    requires
        reading.is_offered(),
        reading.is_complete(),
        reading.current_status == 0,
        reading.codes@.take(reading.num_elements as int).contains(reading.current_code),
    ensures
        ({
            let p = parameter_in(property, reading);
            p.options.contains((p.current, reading.current_code))
        }),
{
    let p = parameter_in(property, reading);
    let codes = reading.codes@.take(reading.num_elements as int);
    let i = choose|i: int| 0 <= i < codes.len() && codes[i] == reading.current_code;
    assert(p.options[i] == (p.current, reading.current_code));
}

/// The parameter that an offered property becomes.
pub fn parameter_of(property: CanonProperty, reading: &PropertyReading) -> (parameter:
    CameraParameter)
    requires
        reading.is_offered(),
        reading.is_complete(),
    ensures
        parameter_view(parameter) == parameter_in(property, *reading),
        parameter.is_discrete(),
{
    let current = if reading.current_status == 0 {
        property.decode(reading.current_code)
    } else {
        "Unknown".to_owned()
    };
    let mut options: Vec<ParameterOption> = Vec::new();
    let count: usize = reading.num_elements as usize;
    let mut i: usize = 0;
    while i < count
        invariant
            i <= count <= reading.codes@.len(),
            options@.len() == i,
            forall|j: int|
                0 <= j < i ==> (#[trigger] options@[j]).label@ == property.label(reading.codes@[j])
                    && options@[j].value == reading.codes@[j],
        decreases count - i,
    {
        let code = reading.codes[i];
        options.push(ParameterOption { label: property.decode(code), value: code });
        i += 1;
    }
    assert(options@.map_values(|o: ParameterOption| (o.label@, o.value)) =~= parameter_in(
        property,
        *reading,
    ).options);
    CameraParameter {
        kind: property.name().to_owned(),
        current,
        options,
        min: None,
        max: None,
        step: None,
    }
}

fn parameters_of(readings: &Vec<PropertyReading>) -> (parameters: Vec<CameraParameter>)
    requires
        readings@.len() == property_list().len(),
        forall|i: int| 0 <= i < readings@.len() ==> (#[trigger] readings@[i]).is_complete(),
    ensures
        parameters@.map_values(|q: CameraParameter| parameter_view(q)) == parameters_in(readings@),
{
    let list = properties();
    let mut parameters: Vec<CameraParameter> = Vec::new();
    let mut i: usize = 0;
    assert(readings@.take(0) =~= Seq::empty());
    assert(parameters@.map_values(|q: CameraParameter| parameter_view(q)) =~= parameters_in(
        readings@.take(0),
    ));
    while i < readings.len()
        invariant
            list@ == property_list(),
            readings@.len() == property_list().len(),
            i <= readings@.len(),
            forall|i: int| 0 <= i < readings@.len() ==> (#[trigger] readings@[i]).is_complete(),
            parameters@.map_values(|q: CameraParameter| parameter_view(q)) == parameters_in(
                readings@.take(i as int),
            ),
        decreases readings@.len() - i,
    {
        assert(readings@.take(i + 1).drop_last() =~= readings@.take(i as int));
        let reading = &readings[i];
        if offered(reading.description_status, reading.access, reading.num_elements) {
            let parameter = parameter_of(list[i], reading);
            let ghost before = parameters@;
            parameters.push(parameter);
            assert(parameters@.map_values(|q: CameraParameter| parameter_view(q))
                =~= before.map_values(|q: CameraParameter| parameter_view(q)).push(
                parameter_view(parameter),
            ));
        }
        i += 1;
    }
    assert(readings@.take(i as int) =~= readings@);
    parameters
}

// ---------------------------------------------------------------------------
// Code tables
// ---------------------------------------------------------------------------

/// The label of an aperture code.
pub open spec fn av_label(code: i32) -> Seq<char> {
    match code {
        0x08 => "f/1"@,
        0x0B => "f/1.1"@,
        0x0C => "f/1.2"@,
        0x0D => "f/1.2"@,
        0x10 => "f/1.4"@,
        0x13 => "f/1.6"@,
        0x14 => "f/1.8"@,
        0x15 => "f/1.8"@,
        0x18 => "f/2"@,
        0x1B => "f/2.2"@,
        0x1C => "f/2.5"@,
        0x1D => "f/2.5"@,
        0x20 => "f/2.8"@,
        0x23 => "f/3.2"@,
        0x24 => "f/3.5"@,
        0x25 => "f/3.5"@,
        0x28 => "f/4"@,
        0x2B => "f/4.5"@,
        0x2C => "f/4.5"@,
        0x2D => "f/5"@,
        0x30 => "f/5.6"@,
        0x33 => "f/6.3"@,
        0x34 => "f/6.7"@,
        0x35 => "f/7.1"@,
        0x38 => "f/8"@,
        0x3B => "f/9"@,
        0x3C => "f/9.5"@,
        0x3D => "f/10"@,
        0x40 => "f/11"@,
        0x43 => "f/13"@,
        0x44 => "f/13"@,
        0x45 => "f/14"@,
        0x48 => "f/16"@,
        0x4B => "f/18"@,
        0x4C => "f/19"@,
        0x4D => "f/20"@,
        0x50 => "f/22"@,
        0x53 => "f/25"@,
        0x54 => "f/27"@,
        0x55 => "f/29"@,
        0x58 => "f/32"@,
        _ => text::hex_label(code),
    }
}

pub fn decode_av(code: i32) -> (label: String)
    ensures
        label@ == av_label(code),
{
    let label = match code {
        0x08 => "f/1",
        0x0B => "f/1.1",
        0x0C => "f/1.2",
        0x0D => "f/1.2",
        0x10 => "f/1.4",
        0x13 => "f/1.6",
        0x14 => "f/1.8",
        0x15 => "f/1.8",
        0x18 => "f/2",
        0x1B => "f/2.2",
        0x1C => "f/2.5",
        0x1D => "f/2.5",
        0x20 => "f/2.8",
        0x23 => "f/3.2",
        0x24 => "f/3.5",
        0x25 => "f/3.5",
        0x28 => "f/4",
        0x2B => "f/4.5",
        0x2C => "f/4.5",
        0x2D => "f/5",
        0x30 => "f/5.6",
        0x33 => "f/6.3",
        0x34 => "f/6.7",
        0x35 => "f/7.1",
        0x38 => "f/8",
        0x3B => "f/9",
        0x3C => "f/9.5",
        0x3D => "f/10",
        0x40 => "f/11",
        0x43 => "f/13",
        0x44 => "f/13",
        0x45 => "f/14",
        0x48 => "f/16",
        0x4B => "f/18",
        0x4C => "f/19",
        0x4D => "f/20",
        0x50 => "f/22",
        0x53 => "f/25",
        0x54 => "f/27",
        0x55 => "f/29",
        0x58 => "f/32",
        _ => {
            return text::hex_label_text(code);
        },
    };
    label.to_owned()
}

/// The label of a shutter speed code.
pub open spec fn tv_label(code: i32) -> Seq<char> {
    match code {
        0x0C => "30\""@,
        0x10 => "20\""@,
        0x13 => "15\""@,
        0x14 => "13\""@,
        0x15 => "10\""@,
        0x18 => "8\""@,
        0x1B => "6\""@,
        0x1C => "5\""@,
        0x1D => "4\""@,
        0x20 => "3\""@,
        0x23 => "2.5\""@,
        0x24 => "2\""@,
        0x25 => "1.6\""@,
        0x28 => "1.3\""@,
        0x2B => "1\""@,
        0x2C => "0.8\""@,
        0x2D => "0.6\""@,
        0x30 => "1/2"@,
        0x33 => "1/2.5"@,
        0x34 => "1/3"@,
        0x35 => "1/3.2"@,
        0x38 => "1/4"@,
        0x3B => "1/5"@,
        0x3C => "1/6"@,
        0x3D => "1/6"@,
        0x40 => "1/8"@,
        0x43 => "1/10"@,
        0x44 => "1/10"@,
        0x45 => "1/13"@,
        0x48 => "1/15"@,
        0x4B => "1/20"@,
        0x4C => "1/20"@,
        0x4D => "1/25"@,
        0x50 => "1/30"@,
        0x53 => "1/40"@,
        0x54 => "1/45"@,
        0x55 => "1/50"@,
        0x58 => "1/60"@,
        0x5B => "1/80"@,
        0x5C => "1/90"@,
        0x5D => "1/100"@,
        0x60 => "1/125"@,
        0x63 => "1/160"@,
        0x64 => "1/180"@,
        0x65 => "1/200"@,
        0x68 => "1/250"@,
        0x6B => "1/320"@,
        0x6C => "1/350"@,
        0x6D => "1/400"@,
        0x70 => "1/500"@,
        0x73 => "1/640"@,
        0x74 => "1/750"@,
        0x75 => "1/800"@,
        0x78 => "1/1000"@,
        0x7B => "1/1250"@,
        0x7C => "1/1500"@,
        0x7D => "1/1600"@,
        0x80 => "1/2000"@,
        0x83 => "1/2500"@,
        0x84 => "1/3000"@,
        0x85 => "1/3200"@,
        0x88 => "1/4000"@,
        0x8B => "1/5000"@,
        0x8C => "1/6000"@,
        0x8D => "1/6400"@,
        0x90 => "1/8000"@,
        _ => text::hex_label(code),
    }
}

pub fn decode_tv(code: i32) -> (label: String)
    ensures
        label@ == tv_label(code),
{
    let label = match code {
        0x0C => "30\"",
        0x10 => "20\"",
        0x13 => "15\"",
        0x14 => "13\"",
        0x15 => "10\"",
        0x18 => "8\"",
        0x1B => "6\"",
        0x1C => "5\"",
        0x1D => "4\"",
        0x20 => "3\"",
        0x23 => "2.5\"",
        0x24 => "2\"",
        0x25 => "1.6\"",
        0x28 => "1.3\"",
        0x2B => "1\"",
        0x2C => "0.8\"",
        0x2D => "0.6\"",
        0x30 => "1/2",
        0x33 => "1/2.5",
        0x34 => "1/3",
        0x35 => "1/3.2",
        0x38 => "1/4",
        0x3B => "1/5",
        0x3C => "1/6",
        0x3D => "1/6",
        0x40 => "1/8",
        0x43 => "1/10",
        0x44 => "1/10",
        0x45 => "1/13",
        0x48 => "1/15",
        0x4B => "1/20",
        0x4C => "1/20",
        0x4D => "1/25",
        0x50 => "1/30",
        0x53 => "1/40",
        0x54 => "1/45",
        0x55 => "1/50",
        0x58 => "1/60",
        0x5B => "1/80",
        0x5C => "1/90",
        0x5D => "1/100",
        0x60 => "1/125",
        0x63 => "1/160",
        0x64 => "1/180",
        0x65 => "1/200",
        0x68 => "1/250",
        0x6B => "1/320",
        0x6C => "1/350",
        0x6D => "1/400",
        0x70 => "1/500",
        0x73 => "1/640",
        0x74 => "1/750",
        0x75 => "1/800",
        0x78 => "1/1000",
        0x7B => "1/1250",
        0x7C => "1/1500",
        0x7D => "1/1600",
        0x80 => "1/2000",
        0x83 => "1/2500",
        0x84 => "1/3000",
        0x85 => "1/3200",
        0x88 => "1/4000",
        0x8B => "1/5000",
        0x8C => "1/6000",
        0x8D => "1/6400",
        0x90 => "1/8000",
        _ => {
            return text::hex_label_text(code);
        },
    };
    label.to_owned()
}

/// The label of an ISO speed code.
pub open spec fn iso_label(code: i32) -> Seq<char> {
    match code {
        0x00 => "Auto"@,
        0x40 => "ISO 50"@,
        0x48 => "ISO 100"@,
        0x4B => "ISO 125"@,
        0x4D => "ISO 160"@,
        0x50 => "ISO 200"@,
        0x53 => "ISO 250"@,
        0x55 => "ISO 320"@,
        0x58 => "ISO 400"@,
        0x5B => "ISO 500"@,
        0x5D => "ISO 640"@,
        0x60 => "ISO 800"@,
        0x63 => "ISO 1000"@,
        0x65 => "ISO 1250"@,
        0x68 => "ISO 1600"@,
        0x6B => "ISO 2000"@,
        0x6D => "ISO 2500"@,
        0x70 => "ISO 3200"@,
        0x73 => "ISO 4000"@,
        0x75 => "ISO 5000"@,
        0x78 => "ISO 6400"@,
        0x7B => "ISO 8000"@,
        0x7D => "ISO 10000"@,
        0x80 => "ISO 12800"@,
        0x88 => "ISO 25600"@,
        0x90 => "ISO 51200"@,
        0x98 => "ISO 102400"@,
        _ => text::hex_label(code),
    }
}

pub fn decode_iso(code: i32) -> (label: String)
    ensures
        label@ == iso_label(code),
{
    let label = match code {
        0x00 => "Auto",
        0x40 => "ISO 50",
        0x48 => "ISO 100",
        0x4B => "ISO 125",
        0x4D => "ISO 160",
        0x50 => "ISO 200",
        0x53 => "ISO 250",
        0x55 => "ISO 320",
        0x58 => "ISO 400",
        0x5B => "ISO 500",
        0x5D => "ISO 640",
        0x60 => "ISO 800",
        0x63 => "ISO 1000",
        0x65 => "ISO 1250",
        0x68 => "ISO 1600",
        0x6B => "ISO 2000",
        0x6D => "ISO 2500",
        0x70 => "ISO 3200",
        0x73 => "ISO 4000",
        0x75 => "ISO 5000",
        0x78 => "ISO 6400",
        0x7B => "ISO 8000",
        0x7D => "ISO 10000",
        0x80 => "ISO 12800",
        0x88 => "ISO 25600",
        0x90 => "ISO 51200",
        0x98 => "ISO 102400",
        _ => {
            return text::hex_label_text(code);
        },
    };
    label.to_owned()
}

/// The label of a white balance code.
pub open spec fn wb_label(code: i32) -> Seq<char> {
    match code {
        0 => "Auto"@,
        1 => "Daylight"@,
        2 => "Cloudy"@,
        3 => "Tungsten"@,
        4 => "Fluorescent"@,
        5 => "Flash"@,
        6 => "Custom"@,
        8 => "Shade"@,
        9 => "Color temperature"@,
        10 => "Custom WB 1"@,
        11 => "Custom WB 2"@,
        12 => "Custom WB 3"@,
        20 => "Custom WB 4"@,
        21 => "Custom WB 5"@,
        -1 => "Auto (white priority)"@,
        _ => text::hex_label(code),
    }
}

pub fn decode_wb(code: i32) -> (label: String)
    ensures
        label@ == wb_label(code),
{
    let label = match code {
        0 => "Auto",
        1 => "Daylight",
        2 => "Cloudy",
        3 => "Tungsten",
        4 => "Fluorescent",
        5 => "Flash",
        6 => "Custom",
        8 => "Shade",
        9 => "Color temperature",
        10 => "Custom WB 1",
        11 => "Custom WB 2",
        12 => "Custom WB 3",
        20 => "Custom WB 4",
        21 => "Custom WB 5",
        -1 => "Auto (white priority)",
        _ => {
            return text::hex_label_text(code);
        },
    };
    label.to_owned()
}

/// The label of a metering mode code.
pub open spec fn metering_label(code: i32) -> Seq<char> {
    match code {
        1 => "Spot"@,
        3 => "Evaluative"@,
        4 => "Partial"@,
        5 => "Center-weighted"@,
        _ => text::hex_label(code),
    }
}

pub fn decode_metering(code: i32) -> (label: String)
    ensures
        label@ == metering_label(code),
{
    let label = match code {
        1 => "Spot",
        3 => "Evaluative",
        4 => "Partial",
        5 => "Center-weighted",
        _ => {
            return text::hex_label_text(code);
        },
    };
    label.to_owned()
}

/// The label of an autofocus mode code.
pub open spec fn af_label(code: i32) -> Seq<char> {
    match code {
        0 => "One-Shot"@,
        1 => "AI Servo"@,
        2 => "AI Focus"@,
        3 => "Manual"@,
        _ => text::hex_label(code),
    }
}

pub fn decode_af(code: i32) -> (label: String)
    ensures
        label@ == af_label(code),
{
    let label = match code {
        0 => "One-Shot",
        1 => "AI Servo",
        2 => "AI Focus",
        3 => "Manual",
        _ => {
            return text::hex_label_text(code);
        },
    };
    label.to_owned()
}

/// The label of a drive mode code.
pub open spec fn drive_label(code: i32) -> Seq<char> {
    match code {
        0 => "Single"@,
        1 => "Continuous high"@,
        2 => "Video"@,
        4 => "Self-timer 2s"@,
        5 => "Self-timer 10s"@,
        6 => "Silent single"@,
        7 => "AF servo high"@,
        10 => "Continuous low"@,
        16 => "Silent continuous"@,
        17 => "Silent continuous low"@,
        _ => text::hex_label(code),
    }
}

pub fn decode_drive(code: i32) -> (label: String)
    ensures
        label@ == drive_label(code),
{
    let label = match code {
        0 => "Single",
        1 => "Continuous high",
        2 => "Video",
        4 => "Self-timer 2s",
        5 => "Self-timer 10s",
        6 => "Silent single",
        7 => "AF servo high",
        10 => "Continuous low",
        16 => "Silent continuous",
        17 => "Silent continuous low",
        _ => {
            return text::hex_label_text(code);
        },
    };
    label.to_owned()
}

/// The label of an exposure compensation code, counted in eighths of a stop.
pub open spec fn ev_label(code: i32) -> Seq<char> {
    match code {
        24 => "+3"@,
        21 => "+2⅔"@,
        19 => "+2⅓"@,
        16 => "+2"@,
        13 => "+1⅔"@,
        11 => "+1⅓"@,
        8 => "+1"@,
        5 => "+⅔"@,
        3 => "+⅓"@,
        0 => "0"@,
        -3 => "-⅓"@,
        -5 => "-⅔"@,
        -8 => "-1"@,
        -11 => "-1⅓"@,
        -13 => "-1⅔"@,
        -16 => "-2"@,
        -19 => "-2⅓"@,
        -21 => "-2⅔"@,
        -24 => "-3"@,
        _ => text::explicitly_signed_decimal(code as int),
    }
}

pub fn decode_ev(code: i32) -> (label: String)
    ensures
        label@ == ev_label(code),
{
    let label = match code {
        24 => "+3",
        21 => "+2⅔",
        19 => "+2⅓",
        16 => "+2",
        13 => "+1⅔",
        11 => "+1⅓",
        8 => "+1",
        5 => "+⅔",
        3 => "+⅓",
        0 => "0",
        -3 => "-⅓",
        -5 => "-⅔",
        -8 => "-1",
        -11 => "-1⅓",
        -13 => "-1⅔",
        -16 => "-2",
        -19 => "-2⅓",
        -21 => "-2⅔",
        -24 => "-3",
        _ => {
            return text::explicitly_signed_text(code);
        },
    };
    label.to_owned()
}

/// The label of a color temperature.
pub open spec fn color_temp_label(code: i32) -> Seq<char> {
    text::signed_decimal(code as int) + "K"@
}

pub fn decode_color_temp(code: i32) -> (label: String)
    ensures
        label@ == color_temp_label(code),
{
    text::joined(text::signed_decimal_text(code).as_str(), "K")
}

// ---------------------------------------------------------------------------
// Laws on parameters
// ---------------------------------------------------------------------------

proof fn lemma_kinds_differ(i: int, j: int)
    requires
        0 <= i < property_list().len(),
        0 <= j < property_list().len(),
        i != j,
    ensures
        property_list()[i].kind() != property_list()[j].kind(),
{
    reveal_strlit("aperture");
    reveal_strlit("shutter_speed");
    reveal_strlit("iso");
    reveal_strlit("white_balance");
    reveal_strlit("color_temperature");
    reveal_strlit("metering_mode");
    reveal_strlit("af_mode");
    reveal_strlit("drive_mode");
    reveal_strlit("exposure_compensation");
    assert("shutter_speed"@[0] == 's');
    assert("white_balance"@[0] == 'w');
    assert("metering_mode"@[0] == 'm');
    assert("aperture"@.len() == 8 && "iso"@.len() == 3 && "color_temperature"@.len() == 17);
    assert("shutter_speed"@.len() == 13 && "white_balance"@.len() == 13 && "metering_mode"@.len()
        == 13);
    assert("af_mode"@.len() == 7 && "drive_mode"@.len() == 10);
    assert("exposure_compensation"@.len() == 21);
    assert(i == 0 || i == 1 || i == 2 || i == 3 || i == 4 || i == 5 || i == 6 || i == 7 || i == 8);
    assert(j == 0 || j == 1 || j == 2 || j == 3 || j == 4 || j == 5 || j == 6 || j == 7 || j == 8);
}

/// A property is left out for one of three reasons only: its description could not be read, it
/// cannot be set at all, or there is nothing to set it to. Every other property is listed.
pub proof fn a_property_is_left_out_for_three_reasons_only(readings: Seq<PropertyReading>, i: int)
    requires
        0 <= i < readings.len() <= property_list().len(),
    ensures
        is_offered(readings[i].description_status, readings[i].access, readings[i].num_elements)
            <==> readings[i].description_status == 0 && readings[i].access != 0
            && readings[i].num_elements > 0,
        (exists|j: int|
            0 <= j < parameters_in(readings).len() && (
            #[trigger] parameters_in(readings)[j]).kind == property_list()[i].kind())
            <==> readings[i].description_status == 0 && readings[i].access != 0
            && readings[i].num_elements > 0,
    decreases readings.len(),
{
    let front = readings.drop_last();
    let before = parameters_in(front);
    let all = parameters_in(readings);
    let last = readings.len() - 1;
    let kind = property_list()[i].kind();
    if i < last {
        a_property_is_left_out_for_three_reasons_only(front, i);
        lemma_kinds_differ(i, last);
        if exists|j: int| 0 <= j < before.len() && (#[trigger] before[j]).kind == kind {
            let j = choose|j: int| 0 <= j < before.len() && (#[trigger] before[j]).kind == kind;
            assert(all[j].kind == kind);
        }
        if exists|j: int| 0 <= j < all.len() && (#[trigger] all[j]).kind == kind {
            let j = choose|j: int| 0 <= j < all.len() && (#[trigger] all[j]).kind == kind;
            assert(j < before.len());
            assert(before[j].kind == kind);
        }
    } else {
        assert forall|j: int| 0 <= j < before.len() implies (#[trigger] before[j]).kind != kind by {
            lemma_kinds_before(front, last, j);
        }
        if readings[i].is_offered() {
            assert(all[before.len() as int].kind == kind);
        }
    }
}

proof fn lemma_kinds_before(readings: Seq<PropertyReading>, i: int, j: int)
    requires
        readings.len() <= i < property_list().len(),
        0 <= j < parameters_in(readings).len(),
    ensures
        parameters_in(readings)[j].kind != property_list()[i].kind(),
    decreases readings.len(),
{
    let front = readings.drop_last();
    if j < parameters_in(front).len() {
        lemma_kinds_before(front, i, j);
    } else {
        lemma_kinds_differ(readings.len() - 1, i);
    }
}

/// Parameters are listed in the order of the properties. One more property adds nothing where it
/// is left out, and otherwise one parameter at the end. That has as many options as codes are
/// allowed, each with its code and the label of it, and no range; its current value is the label
/// of the code that was read.
pub proof fn each_property_adds_its_own_parameter(
    readings: Seq<PropertyReading>,
    reading: PropertyReading,
)
    requires
        readings.len() < property_list().len(),
        reading.num_elements <= reading.codes@.len(),
    ensures
        parameters_in(Seq::empty()) == Seq::<ParameterView>::empty(),
        ({
            let before = parameters_in(readings);
            let after = parameters_in(readings.push(reading));
            let property = property_list()[readings.len() as int];
            if reading.description_status != 0 || reading.access == 0 || reading.num_elements <= 0 {
                after == before
            } else {
                let added = after[before.len() as int];
                &&& after.len() == before.len() + 1
                &&& after.take(before.len() as int) == before
                &&& added == parameter_in(property, reading)
                &&& added.kind == property.kind()
                &&& added.options.len() == reading.num_elements
                &&& forall|k: int|
                    0 <= k < reading.num_elements ==> (#[trigger] added.options[k]).1
                        == reading.codes@[k] && added.options[k].0 == property.label(
                        reading.codes@[k],
                    )
                &&& reading.current_status == 0 ==> added.current == property.label(
                    reading.current_code,
                )
                &&& reading.current_status != 0 ==> added.current == "Unknown"@
                &&& added.min is None && added.max is None && added.step is None
            }
        }),
{
    let before = parameters_in(readings);
    let after = parameters_in(readings.push(reading));
    assert(readings.push(reading).drop_last() =~= readings);
    assert(parameters_in(Seq::empty()) =~= Seq::<ParameterView>::empty());
    assert(after.take(before.len() as int) =~= before);
}

/// Apertures come in steps of a third and a half of a stop, and every such code from the first to
/// the last has an f-number. All other codes are shown by their bits.
pub proof fn apertures_are_f_numbers(code: i32)
    ensures
        ({
            let label = CanonProperty::Aperture.label(code);
            let step = code as int % 8;
            if 0x08 <= code <= 0x58 && (step == 0 || step == 3 || step == 4 || step == 5) {
                label.len() >= 3 && label[0] == 'f' && label[1] == '/'
            } else {
                label == text::hex_label(code)
            }
        }),
{
    reveal_strlit("f/1");
    reveal_strlit("f/1.1");
    reveal_strlit("f/1.2");
    reveal_strlit("f/1.4");
    reveal_strlit("f/1.6");
    reveal_strlit("f/1.8");
    reveal_strlit("f/2");
    reveal_strlit("f/2.2");
    reveal_strlit("f/2.5");
    reveal_strlit("f/2.8");
    reveal_strlit("f/3.2");
    reveal_strlit("f/3.5");
    reveal_strlit("f/4");
    reveal_strlit("f/4.5");
    reveal_strlit("f/5");
    reveal_strlit("f/5.6");
    reveal_strlit("f/6.3");
    reveal_strlit("f/6.7");
    reveal_strlit("f/7.1");
    reveal_strlit("f/8");
    reveal_strlit("f/9");
    reveal_strlit("f/9.5");
    reveal_strlit("f/10");
    reveal_strlit("f/11");
    reveal_strlit("f/13");
    reveal_strlit("f/14");
    reveal_strlit("f/16");
    reveal_strlit("f/18");
    reveal_strlit("f/19");
    reveal_strlit("f/20");
    reveal_strlit("f/22");
    reveal_strlit("f/25");
    reveal_strlit("f/27");
    reveal_strlit("f/29");
    reveal_strlit("f/32");
}

/// Codes that are no step of a third or a half of a stop, or lie outside the range of the
/// property, are shown by their bits, and so are codes of modes that do not exist.
pub proof fn codes_without_a_label_are_shown_by_their_bits(code: i32)
    ensures
        ({
            let step = code as int % 8;
            &&& !(code == 0x0C || (0x10 <= code <= 0x90 && (step == 0 || step == 3 || step == 4
                || step == 5))) ==> CanonProperty::ShutterSpeed.label(code) == text::hex_label(
                code,
            )
            &&& !(code == 0 || code == 0x40 || code == 0x88 || code == 0x90 || code == 0x98 || (
            0x48 <= code <= 0x80 && (step == 0 || step == 3 || step == 5)))
                ==> CanonProperty::Iso.label(code) == text::hex_label(code)
            &&& code < -1 || code == 7 || 12 < code < 20 || code > 21
                ==> CanonProperty::WhiteBalance.label(code) == text::hex_label(code)
            &&& code < 1 || code == 2 || code > 5 ==> CanonProperty::MeteringMode.label(code)
                == text::hex_label(code)
            &&& code < 0 || code > 3 ==> CanonProperty::AfMode.label(code) == text::hex_label(code)
            &&& code < 0 || code == 3 || code == 8 || code == 9 || 10 < code < 16 || code > 17
                ==> CanonProperty::DriveMode.label(code) == text::hex_label(code)
        }),
{
}

/// The ISO speed doubles with every stop, which is eight codes, from 50 at the code 0x40 to 102400
/// at 0x98; a third of a stop above, it is 125 at 0x4B and doubles up to 8000.
pub proof fn iso_speeds_double_with_every_stop(stops: nat)
    ensures
        stops <= 11 ==> CanonProperty::Iso.label((0x40 + 8 * stops) as i32) == "ISO "@
            + text::decimal(50 * power2::pow2(stops)),
        stops <= 6 ==> CanonProperty::Iso.label((0x4B + 8 * stops) as i32) == "ISO "@
            + text::decimal(125 * power2::pow2(stops)),
{
    power2::lemma2_to64();
    if stops <= 11 {
        lemma_iso_label((0x40 + 8 * stops) as i32);
    }
    if stops <= 6 {
        lemma_iso_label((0x4B + 8 * stops) as i32);
    }
}

/// The ISO speed of a code that is a whole stop, or a third of a stop above one.
spec fn iso_speed(code: i32) -> nat {
    match code {
        0x40 => 50,
        0x48 => 100,
        0x4B => 125,
        0x50 => 200,
        0x53 => 250,
        0x58 => 400,
        0x5B => 500,
        0x60 => 800,
        0x63 => 1000,
        0x68 => 1600,
        0x6B => 2000,
        0x70 => 3200,
        0x73 => 4000,
        0x78 => 6400,
        0x7B => 8000,
        0x80 => 12800,
        0x88 => 25600,
        0x90 => 51200,
        0x98 => 102400,
        _ => 0,
    }
}

#[verifier::spinoff_prover]
#[verifier::rlimit(60)]
proof fn lemma_iso_label(code: i32)
    requires
        0x40 <= code <= 0x98,
        code as int % 8 == 0 || (code as int % 8 == 3 && 0x4B <= code <= 0x7B),
    ensures
        CanonProperty::Iso.label(code) == "ISO "@ + text::decimal(iso_speed(code)),
{
    reveal_strlit("ISO ");
    reveal_strlit("ISO 50");
    reveal_strlit("ISO 100");
    reveal_strlit("ISO 125");
    reveal_strlit("ISO 200");
    reveal_strlit("ISO 250");
    reveal_strlit("ISO 400");
    reveal_strlit("ISO 500");
    reveal_strlit("ISO 800");
    reveal_strlit("ISO 1000");
    reveal_strlit("ISO 1600");
    reveal_strlit("ISO 2000");
    reveal_strlit("ISO 3200");
    reveal_strlit("ISO 4000");
    reveal_strlit("ISO 6400");
    reveal_strlit("ISO 8000");
    reveal_strlit("ISO 12800");
    reveal_strlit("ISO 25600");
    reveal_strlit("ISO 51200");
    reveal_strlit("ISO 102400");
    reveal_with_fuel(text::numeral, 7);
    let text = "ISO "@ + text::decimal(iso_speed(code));
    assert(CanonProperty::Iso.label(code) =~= text);
}

/// An exposure compensation and its opposite have labels that differ in their sign alone: plus
/// above zero and minus below.
pub proof fn opposite_compensations_differ_in_their_sign(code: i32)
    requires
        0 < code,
    ensures
        ({
            let above = CanonProperty::ExposureCompensation.label(code);
            let below = CanonProperty::ExposureCompensation.label((-code) as i32);
            &&& above.len() > 1 && below.len() > 1
            &&& above[0] == '+' && below[0] == '-'
            &&& above.skip(1) == below.skip(1)
        }),
{
    reveal_strlit("+3");
    reveal_strlit("-3");
    reveal_strlit("+2⅔");
    reveal_strlit("-2⅔");
    reveal_strlit("+2⅓");
    reveal_strlit("-2⅓");
    reveal_strlit("+2");
    reveal_strlit("-2");
    reveal_strlit("+1⅔");
    reveal_strlit("-1⅔");
    reveal_strlit("+1⅓");
    reveal_strlit("-1⅓");
    reveal_strlit("+1");
    reveal_strlit("-1");
    reveal_strlit("+⅔");
    reveal_strlit("-⅔");
    reveal_strlit("+⅓");
    reveal_strlit("-⅓");
    let above = CanonProperty::ExposureCompensation.label(code);
    let below = CanonProperty::ExposureCompensation.label((-code) as i32);
    text::decimal_is_read_back(code as nat);
    assert(above.skip(1) =~= below.skip(1));
}

/// A compensation that is no third of a stop up to three stops is shown as a number with its
/// sign. A colour temperature is shown as a number of Kelvin.
pub proof fn other_numbers_are_shown_as_they_are(code: i32)
    ensures
        ({
            let size = if code < 0 {
                -code
            } else {
                code as int
            };
            size > 24 || !(size % 8 == 0 || size % 8 == 3 || size % 8 == 5)
                ==> CanonProperty::ExposureCompensation.label(code) == (if code < 0 {
                seq!['-']
            } else {
                seq!['+']
            }) + text::decimal(size as nat)
        }),
        CanonProperty::ColorTemperature.label(code) == text::signed_decimal(code as int) + "K"@,
{
}

// ---------------------------------------------------------------------------
// Laws on the camera list
// ---------------------------------------------------------------------------

/// Cameras are listed in their order. One that did not describe itself is left out; every other
/// one is listed under its own name, by its port, and as connected exactly where a session is
/// open for that port.
pub proof fn each_described_camera_is_listed(
    sessions: Map<Seq<char>, CameraRef>,
    slots: Seq<CameraSlot>,
    slot: CameraSlot,
)
    ensures
        devices_in(sessions, Seq::empty()) == Seq::<DeviceInfoView>::empty(),
        ({
            let before = devices_in(sessions, slots);
            let after = devices_in(sessions, slots.push(slot));
            match slot {
                CameraSlot::Described { camera: _, port, description } => {
                    let added = after[before.len() as int];
                    &&& after.len() == before.len() + 1
                    &&& after.take(before.len() as int) == before
                    &&& added.name == text::c_text(description@)
                    &&& added.id == camera::encoded_id("canon"@, text::c_text(port@))
                    &&& added.connected <==> sessions.dom().contains(text::c_text(port@))
                },
                _ => after == before,
            }
        }),
{
    assert(devices_in(sessions, Seq::empty()) =~= Seq::<DeviceInfoView>::empty());
    assert(slots.push(slot).drop_last() =~= slots);
    let before = devices_in(sessions, slots);
    let after = devices_in(sessions, slots.push(slot));
    assert(after.take(before.len() as int) =~= before);
}

/// A search keeps the camera on the port that it looks for, the last one where there are several,
/// and has every other camera released, in their order.
pub proof fn a_search_goes_by_the_port(
    slots: Seq<CameraSlot>,
    slot: CameraSlot,
    device_id: Seq<char>,
)
    ensures
        camera_on_port(Seq::empty(), device_id) is None,
        other_cameras(Seq::empty(), device_id) == Seq::<CameraRef>::empty(),
        ({
            let found = camera_on_port(slots.push(slot), device_id);
            let release = other_cameras(slots.push(slot), device_id);
            let before = other_cameras(slots, device_id);
            match slot {
                CameraSlot::Described { camera, port, description: _ } => if text::c_text(port@)
                    == device_id {
                    found == Some(camera) && release == before
                } else {
                    found == camera_on_port(slots, device_id) && release == before.push(camera)
                },
                CameraSlot::Unknown(camera) => found == camera_on_port(slots, device_id) && release
                    == before.push(camera),
                CameraSlot::Missing => found == camera_on_port(slots, device_id) && release
                    == before,
            }
        }),
{
    assert(slots.push(slot).drop_last() =~= slots);
    assert(other_cameras(Seq::empty(), device_id) =~= Seq::<CameraRef>::empty());
}

/// A status other than zero ends the opening of a session with that status, and the camera is
/// given back: it is released, and its session closed where it was open. Live view is sent to the
/// host before the session counts as open.
pub proof fn a_failed_status_ends_opening_a_session(camera: CameraRef, status: u32)
    ensures
        status == 0 ==> opened_step(camera, status) == (ConnectStep::SetProperty {
            camera,
            property: 0x500,
            value: 2,
        }),
        status != 0 ==> opened_step(camera, status) == (ConnectStep::Finish {
            close: None,
            release: Some(camera),
            result: Err(CameraError::SdkError(status)),
        }),
        status == 0 ==> enabled_step(camera, status) == (ConnectStep::Finish {
            close: None,
            release: None,
            result: Ok(()),
        }),
        status != 0 ==> enabled_step(camera, status) == (ConnectStep::Finish {
            close: Some(camera),
            release: Some(camera),
            result: Err(CameraError::SdkError(status)),
        }),
{
}

/// The labels of a property are those of its own codes: what a code is called does not depend on
/// whether it is current or allowed, nor on the other properties.
pub proof fn a_property_is_labelled_by_its_own_codes(code: i32)
    ensures
        CanonProperty::Aperture.label(code) == av_label(code),
        CanonProperty::ShutterSpeed.label(code) == tv_label(code),
        CanonProperty::Iso.label(code) == iso_label(code),
        CanonProperty::WhiteBalance.label(code) == wb_label(code),
        CanonProperty::ColorTemperature.label(code) == color_temp_label(code),
        CanonProperty::MeteringMode.label(code) == metering_label(code),
        CanonProperty::AfMode.label(code) == af_label(code),
        CanonProperty::DriveMode.label(code) == drive_label(code),
        CanonProperty::ExposureCompensation.label(code) == ev_label(code),
{
}

/// A parameter is compared by all of its fields.
pub proof fn parameters_are_seen_field_by_field(p: CameraParameter)
    ensures
        ({
            let seen = parameter_view(p);
            &&& seen.kind == p.kind@
            &&& seen.current == p.current@
            &&& seen.min == p.min && seen.max == p.max && seen.step == p.step
            &&& seen.options.len() == p.options@.len()
            &&& forall|i: int|
                0 <= i < p.options@.len() ==> (#[trigger] seen.options[i]).0 == p.options@[i].label@
                    && seen.options[i].1 == p.options@[i].value
        }),
{
}

}
