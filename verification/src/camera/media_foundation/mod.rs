//! Media Foundation cameras.

pub mod calls;
pub mod frames;
pub mod modes;

use crate::camera;
use crate::camera::indexed;
use crate::camera::media_foundation::calls::SourceSlot;
use crate::camera::media_foundation::modes::{NativeType, SelectionPolicy};
use crate::camera::{CameraDevice, CameraError, CameraErrorView, CameraResolution};
use crate::sessions::SessionTable;
use crate::text;
use vstd::prelude::*;

verus! {

/// How long a photo waits for the next frame of a session, in milliseconds.
pub const POLL_PAUSE_MS: u64 = 30;

/// The worker of an open session and the place of its latest frame.
pub type WorkerRef = u64;

/// An open session.
#[derive(Debug, Clone, Copy, PartialEq, Eq, Structural)]
pub struct PreviewSession {
    pub worker: WorkerRef,
    /// The size of the preview.
    pub preview: CameraResolution,
}

/// Media Foundation backend: the sessions whose workers run.
pub struct MediaFoundationBackend {
    sessions: SessionTable<PreviewSession>,
}

impl View for MediaFoundationBackend {
    type V = Map<Seq<char>, PreviewSession>;

    closed spec fn view(&self) -> Map<Seq<char>, PreviewSession> {
        self.sessions@
    }
}

/// The error where there is no Media Foundation.
pub fn unavailable() -> (e: CameraError)
    ensures
        e@ == CameraErrorView::BackendUnavailable(
            "media foundation backend is only available on Windows"@,
        ),
{
    CameraError::BackendUnavailable(
        "media foundation backend is only available on Windows".to_owned(),
    )
}

/// The error where the table of the sessions cannot be had.
pub fn sessions_lost() -> (e: CameraError)
    ensures
        e@ == CameraErrorView::BackendFailure("session lock poisoned"@),
{
    CameraError::BackendFailure("session lock poisoned".to_owned())
}

// ---------------------------------------------------------------------------
// Cameras and their modes
// ---------------------------------------------------------------------------

/// The names of the sources, or the error about the first one whose name could not be had.
pub open spec fn device_names(slots: Seq<SourceSlot>) -> Result<Seq<Seq<char>>, CameraErrorView> {
    match calls::names_in(slots) {
        Ok(names) => Ok(names),
        Err(message) => Err(CameraErrorView::BackendFailure(message)),
    }
}

/// The names of the cameras that are there.
pub fn enumerate_devices(slots: &Vec<SourceSlot>) -> (names: Result<Vec<String>, CameraError>)
    ensures
        match names {
            Ok(n) => device_names(slots@) == Ok::<Seq<Seq<char>>, CameraErrorView>(
                calls::texts_view(n@),
            ),
            Err(e) => device_names(slots@) == Err::<Seq<Seq<char>>, CameraErrorView>(e@),
        },
{
    match calls::source_names(slots) {
        Ok(names) => Ok(names),
        Err(message) => Err(CameraError::BackendFailure(message)),
    }
}

/// Lists the cameras with these names: each is known by its place.
pub fn list_cameras(names: Vec<String>) -> (devices: Vec<CameraDevice>)
    ensures
        indexed::ids_are_places(devices@),
        devices@.len() == names@.len(),
        forall|i: int| 0 <= i < names@.len() ==> (#[trigger] devices@[i]).name@ == names@[i]@,
{
    let mut devices: Vec<CameraDevice> = Vec::new();
    let mut i: usize = 0;
    while i < names.len()
        invariant
            i <= names@.len(),
            devices@.len() == i,
            indexed::ids_are_places(devices@),
            forall|j: int| 0 <= j < i ==> (#[trigger] devices@[j]).name@ == names@[j]@,
        decreases names@.len() - i,
    {
        let raw_id = text::decimal_text(i as u64);
        devices.push(CameraDevice { raw_id, name: names[i].clone() });
        i += 1;
    }
    devices
}

/// Looks an identifier up among `count` cameras.
pub fn activate_for_raw_id(raw_id: &str, count: usize) -> (index: Result<usize, CameraError>)
    ensures
        camera::viewed_plain(index) == indexed::camera_of_id("mf"@, raw_id@, count as nat),
{
    indexed::camera_at("mf", raw_id, count)
}

/// Lists the resolutions of a stream.
pub fn list_resolutions(natives: &Vec<NativeType>) -> (resolutions: Result<
    Vec<CameraResolution>,
    CameraError,
>)
    ensures
        match resolutions {
            Ok(r) => {
                &&& r@.len() > 0
                &&& modes::is_sorted_from(modes::resolutions_in(modes::modes_in(natives@)), r@)
            },
            Err(e) => {
                &&& modes::modes_in(natives@).len() == 0
                &&& e@ == CameraErrorView::BackendFailure(
                    "camera exposes no native MJPG resolution"@,
                )
            },
        },
{
    let list = modes::enumerate_mjpg_native_modes(natives);
    let resolutions = modes::modes_to_resolutions(list.as_slice());
    if resolutions.len() == 0 {
        proof {
            modes::listed_resolutions_are_those_of_the_modes(list@, resolutions@);
            if list@.len() > 0 {
                assert(modes::has_resolution(list@, list@[0].resolution()));
                assert(resolutions@.contains(list@[0].resolution()));
            }
        }
        return Err(
            CameraError::BackendFailure("camera exposes no native MJPG resolution".to_owned()),
        );
    }
    Ok(resolutions)
}

/// Chooses the native media type for a reader.
pub fn choose_mode(
    natives: &Vec<NativeType>,
    preferred: Option<CameraResolution>,
    policy: SelectionPolicy,
) -> (index: Result<usize, CameraError>)
    ensures
        camera::viewed_plain(index) == match modes::selected_mode(
            modes::modes_in(natives@),
            preferred,
            policy,
        ) {
            Some(i) => Ok(modes::modes_in(natives@)[i].index),
            None => Err(CameraErrorView::BackendFailure("no native MJPG mode found"@)),
        },
{
    let list = modes::enumerate_mjpg_native_modes(natives);
    match modes::select_mode_index(list.as_slice(), preferred, policy) {
        Some(index) => Ok(index),
        None => Err(CameraError::BackendFailure("no native MJPG mode found".to_owned())),
    }
}

// ---------------------------------------------------------------------------
// Sessions
// ---------------------------------------------------------------------------

/// What opening a session asks for next.
#[derive(Debug, PartialEq, Eq)]
pub enum ConnectStep {
    /// Starts a worker for the camera.
    StartWorker,
    /// Answers.
    Finish(Result<(), CameraError>),
}

/// The mathematical content of a [`ConnectStep`].
pub enum ConnectStepView {
    StartWorker,
    Finish(Result<(), CameraErrorView>),
}

impl View for ConnectStep {
    type V = ConnectStepView;

    open spec fn view(&self) -> ConnectStepView {
        match *self {
            ConnectStep::StartWorker => ConnectStepView::StartWorker,
            ConnectStep::Finish(r) => ConnectStepView::Finish(camera::viewed_plain(r)),
        }
    }
}

/// How opening a session begins, of the search for the camera. The camera has to be there even
/// where its session is open already.
pub open spec fn connect_step(
    sessions: Map<Seq<char>, PreviewSession>,
    found: Result<usize, CameraErrorView>,
    raw_id: Seq<char>,
) -> ConnectStepView {
    match found {
        Err(e) => ConnectStepView::Finish(Err(e)),
        Ok(_) => if sessions.dom().contains(raw_id) {
            ConnectStepView::Finish(Ok(()))
        } else {
            ConnectStepView::StartWorker
        },
    }
}

/// The sessions and the answer behind opening a session with `worker`.
pub open spec fn connect_run(
    sessions: Map<Seq<char>, PreviewSession>,
    found: Result<usize, CameraErrorView>,
    raw_id: Seq<char>,
    worker: WorkerRef,
) -> (Map<Seq<char>, PreviewSession>, Result<(), CameraErrorView>) {
    match connect_step(sessions, found, raw_id) {
        ConnectStepView::StartWorker => (
            sessions.insert(
                raw_id,
                PreviewSession { worker, preview: modes::default_preview() },
            ),
            Ok(()),
        ),
        ConnectStepView::Finish(r) => (sessions, r),
    }
}

/// The size of the preview of a session.
pub open spec fn preview_of(
    sessions: Map<Seq<char>, PreviewSession>,
    raw_id: Seq<char>,
) -> Option<CameraResolution> {
    if sessions.dom().contains(raw_id) {
        Some(sessions[raw_id].preview)
    } else {
        None
    }
}

/// The sessions and the answer behind setting the size of a preview, of the sizes that the
/// camera has.
pub open spec fn set_preview_run(
    sessions: Map<Seq<char>, PreviewSession>,
    available: Result<Seq<CameraResolution>, CameraErrorView>,
    raw_id: Seq<char>,
    resolution: CameraResolution,
) -> (Map<Seq<char>, PreviewSession>, Result<(), CameraErrorView>) {
    match available {
        Err(e) => (sessions, Err(e)),
        Ok(sizes) => if !sizes.contains(resolution) {
            (
                sessions,
                Err(
                    CameraErrorView::BackendFailure(
                        "unsupported preview resolution: "@ + text::decimal(
                            resolution.width as nat,
                        ) + "x"@ + text::decimal(resolution.height as nat),
                    ),
                ),
            )
        } else if !sessions.dom().contains(raw_id) {
            (
                sessions,
                Err(
                    CameraErrorView::CameraNotConnected(
                        "camera is not connected: "@ + indexed::qualified("mf"@, raw_id),
                    ),
                ),
            )
        } else {
            (
                sessions.insert(
                    raw_id,
                    PreviewSession { preview: resolution, ..sessions[raw_id] },
                ),
                Ok(()),
            )
        },
    }
}

/// The session that a photo of this size asks for its latest frame: it has to be the size of
/// the preview. Other photos are captured without a session.
pub open spec fn polled_session(
    sessions: Map<Seq<char>, PreviewSession>,
    raw_id: Seq<char>,
    preferred: Option<CameraResolution>,
) -> Option<WorkerRef> {
    if preferred is Some && preview_of(sessions, raw_id) == preferred {
        Some(sessions[raw_id].worker)
    } else {
        None
    }
}

impl MediaFoundationBackend {
    /// A backend on which no session is open.
    pub fn new() -> (backend: Self)
        ensures
            backend@ == Map::<Seq<char>, PreviewSession>::empty(),
    {
        MediaFoundationBackend { sessions: SessionTable::new() }
    }

    pub fn backend_id(&self) -> (id: &str)
        ensures
            id@ == "mf"@,
    {
        "mf"
    }

    /// Begins to open a session, of the search for the camera.
    pub fn connect(&self, found: Result<usize, CameraError>, raw_id: &str) -> (step: ConnectStep)
        ensures
            step@ == connect_step(self@, camera::viewed_plain(found), raw_id@),
    {
        if let Err(e) = found {
            return ConnectStep::Finish(Err(e));
        }
        if self.sessions.contains(raw_id) {
            return ConnectStep::Finish(Ok(()));
        }
        ConnectStep::StartWorker
    }

    /// Keeps the worker that was started for a camera.
    pub fn worker_started(&mut self, raw_id: &str, worker: WorkerRef)
        ensures
            final(self)@ == old(self)@.insert(
                raw_id@,
                PreviewSession { worker, preview: modes::default_preview() },
            ),
    {
        let preview = CameraResolution {
            width: modes::DEFAULT_PREVIEW_WIDTH,
            height: modes::DEFAULT_PREVIEW_HEIGHT,
        };
        self.sessions.insert(raw_id, PreviewSession { worker, preview })
    }

    /// Takes the session of a camera out; its worker, where there is one, is to be stopped.
    pub fn disconnect(&mut self, raw_id: &str) -> (worker: Option<WorkerRef>)
        ensures
            final(self)@ == old(self)@.remove(raw_id@),
            worker == if old(self)@.dom().contains(raw_id@) {
                Some(old(self)@[raw_id@].worker)
            } else {
                None
            },
    {
        match self.sessions.remove(raw_id) {
            Some(session) => Some(session.worker),
            None => None,
        }
    }

    pub fn is_connected(&self, raw_id: &str) -> (yes: bool)
        ensures
            yes == self@.dom().contains(raw_id@),
    {
        self.sessions.contains(raw_id)
    }

    /// Sets the size of a preview, of the sizes that the camera has.
    pub fn set_preview_resolution(
        &mut self,
        available: Result<Vec<CameraResolution>, CameraError>,
        raw_id: &str,
        resolution: CameraResolution,
    ) -> (r: Result<(), CameraError>)
        ensures
            (final(self)@, camera::viewed_plain(r)) == set_preview_run(
                old(self)@,
                camera::viewed(available),
                raw_id@,
                resolution,
            ),
    {
        let available = match available {
            Ok(available) => available,
            Err(e) => {
                return Err(e);
            },
        };
        if !modes::offers(&available, resolution) {
            let size = text::joined3(
                text::decimal_text(resolution.width as u64).as_str(),
                "x",
                text::decimal_text(resolution.height as u64).as_str(),
            );
            let message = text::joined("unsupported preview resolution: ", size.as_str());
            proof {
                let (w, h) = (
                    text::decimal(resolution.width as nat),
                    text::decimal(resolution.height as nat),
                );
                assert("unsupported preview resolution: "@ + (w + "x"@ + h)
                    =~= "unsupported preview resolution: "@ + w + "x"@ + h);
            }
            return Err(CameraError::BackendFailure(message));
        }
        let worker: WorkerRef = match self.sessions.get(raw_id) {
            Some(session) => session.worker,
            None => {
                let name = text::joined3("mf", ":", raw_id);
                return Err(
                    CameraError::CameraNotConnected(
                        text::joined("camera is not connected: ", name.as_str()),
                    ),
                );
            },
        };
        self.sessions.insert(raw_id, PreviewSession { worker, preview: resolution });
        Ok(())
    }

    /// The size of the preview of a session.
    pub fn get_preview_resolution(&self, raw_id: &str) -> (preview: Option<CameraResolution>)
        ensures
            preview == preview_of(self@, raw_id@),
    {
        match self.sessions.get(raw_id) {
            Some(session) => Some(session.preview),
            None => None,
        }
    }

    /// The session that a photo asks for its latest frame; where there is none the photo is
    /// captured without a session.
    pub fn capture_photo_jpeg(
        &self,
        raw_id: &str,
        preferred_resolution: Option<CameraResolution>,
    ) -> (worker: Option<WorkerRef>)
        ensures
            worker == polled_session(self@, raw_id@, preferred_resolution),
    {
        match (self.sessions.get(raw_id), preferred_resolution) {
            (Some(session), Some(requested)) => if session.preview == requested {
                Some(session.worker)
            } else {
                None
            },
            _ => None,
        }
    }
}

// ---------------------------------------------------------------------------
// Laws
// ---------------------------------------------------------------------------

/// Connecting a connected camera that is still there changes nothing and starts no worker; in
/// particular it keeps the size of the preview.
pub proof fn connect_is_idempotent(
    sessions: Map<Seq<char>, PreviewSession>,
    index: usize,
    raw_id: Seq<char>,
    worker: WorkerRef,
)
    requires
        sessions.dom().contains(raw_id),
    ensures
        connect_step(sessions, Ok(index), raw_id) is Finish,
        connect_run(sessions, Ok(index), raw_id, worker) == (
            sessions,
            Ok::<(), CameraErrorView>(()),
        ),
{
}

/// A camera that was connected is connected; where connecting fails the sessions are as they
/// were, and those of other cameras are never touched.
pub proof fn connect_opens_one_session(
    sessions: Map<Seq<char>, PreviewSession>,
    found: Result<usize, CameraErrorView>,
    raw_id: Seq<char>,
    worker: WorkerRef,
)
    ensures
        ({
            let (after, r) = connect_run(sessions, found, raw_id, worker);
            &&& r is Ok <==> found is Ok
            &&& r is Ok ==> after.dom().contains(raw_id)
            &&& r is Err ==> after == sessions
            &&& after.remove(raw_id) == sessions.remove(raw_id)
        }),
{
    let (after, r) = connect_run(sessions, found, raw_id, worker);
    assert(after.remove(raw_id) =~= sessions.remove(raw_id));
}

/// Disconnecting a camera that was just connected hands out its worker and leaves the sessions
/// as they were before; disconnecting it once more changes nothing.
pub proof fn disconnect_undoes_connect(
    sessions: Map<Seq<char>, PreviewSession>,
    index: usize,
    raw_id: Seq<char>,
    worker: WorkerRef,
)
    requires
        !sessions.dom().contains(raw_id),
    ensures
        ({
            let (after, r) = connect_run(sessions, Ok(index), raw_id, worker);
            &&& r is Ok
            &&& after[raw_id].worker == worker
            &&& after.remove(raw_id) == sessions
            &&& sessions.remove(raw_id) == sessions
        }),
{
    let (after, r) = connect_run(sessions, Ok(index), raw_id, worker);
    assert(after.remove(raw_id) =~= sessions);
    assert(sessions.remove(raw_id) =~= sessions);
}

/// The size of a preview that was set is the one that is read back, and a photo of that size
/// comes from the session. Setting it touches no other session, and none where it fails.
pub proof fn a_preview_that_was_set_is_read_back(
    sessions: Map<Seq<char>, PreviewSession>,
    available: Result<Seq<CameraResolution>, CameraErrorView>,
    raw_id: Seq<char>,
    resolution: CameraResolution,
)
    ensures
        ({
            let (after, r) = set_preview_run(sessions, available, raw_id, resolution);
            &&& r is Ok ==> preview_of(after, raw_id) == Some(resolution)
            &&& r is Ok ==> polled_session(after, raw_id, Some(resolution)) == Some(
                sessions[raw_id].worker,
            )
            &&& r is Err ==> after == sessions
            &&& after.remove(raw_id) == sessions.remove(raw_id)
        }),
{
    let (after, r) = set_preview_run(sessions, available, raw_id, resolution);
    assert(after.remove(raw_id) =~= sessions.remove(raw_id));
}

/// A source whose name cannot be had is a failure of the backend, with its message; otherwise the
/// names are those of the sources.
pub proof fn names_are_those_of_the_sources(slots: Seq<SourceSlot>)
    ensures
        match calls::names_in(slots) {
            Ok(names) => device_names(slots) == Ok::<Seq<Seq<char>>, CameraErrorView>(names),
            Err(message) => device_names(slots) == Err::<Seq<Seq<char>>, CameraErrorView>(
                CameraErrorView::BackendFailure(message),
            ),
        },
{
}

/// A camera that was connected has a preview of 1920 by 1080 and its own worker. Where the camera
/// is not found, that error is answered, whether a session is open or not.
pub proof fn a_new_session_has_the_default_preview(
    sessions: Map<Seq<char>, PreviewSession>,
    found: Result<usize, CameraErrorView>,
    raw_id: Seq<char>,
    worker: WorkerRef,
)
    ensures
        ({
            let step = connect_step(sessions, found, raw_id);
            let (after, r) = connect_run(sessions, found, raw_id, worker);
            &&& found matches Err(e) ==> step == ConnectStepView::Finish(Err(e)) && r == Err::<
                (),
                CameraErrorView,
            >(e)
            &&& found is Ok && sessions.dom().contains(raw_id) ==> step == ConnectStepView::Finish(
                Ok(()),
            )
            &&& found is Ok && !sessions.dom().contains(raw_id) ==> {
                &&& step is StartWorker
                &&& after.dom().contains(raw_id)
                &&& after[raw_id].worker == worker
                &&& after[raw_id].preview.width == 1920
                &&& after[raw_id].preview.height == 1080
            }
        }),
        modes::default_preview().width == 1920,
        modes::default_preview().height == 1080,
        POLL_PAUSE_MS == 30,
{
}

/// The size of a preview can be set to every size that the camera has, where a session is open.
/// Another size is refused by its width and height, and a camera without a session by its name.
pub proof fn a_preview_has_a_size_of_the_camera(
    sessions: Map<Seq<char>, PreviewSession>,
    available: Result<Seq<CameraResolution>, CameraErrorView>,
    raw_id: Seq<char>,
    resolution: CameraResolution,
)
    ensures
        ({
            let (after, r) = set_preview_run(sessions, available, raw_id, resolution);
            match available {
                Err(e) => r == Err::<(), CameraErrorView>(e),
                Ok(sizes) => {
                    let there = exists|i: int|
                        0 <= i < sizes.len() && (#[trigger] sizes[i]).width == resolution.width
                            && sizes[i].height == resolution.height;
                    &&& !there ==> r == Err::<(), CameraErrorView>(
                        CameraErrorView::BackendFailure(
                            "unsupported preview resolution: "@ + text::decimal(
                                resolution.width as nat,
                            ) + seq!['x'] + text::decimal(resolution.height as nat),
                        ),
                    )
                    &&& there && !sessions.dom().contains(raw_id) ==> r == Err::<
                        (),
                        CameraErrorView,
                    >(
                        CameraErrorView::CameraNotConnected(
                            "camera is not connected: "@ + ("mf"@ + ":"@ + raw_id),
                        ),
                    )
                    &&& there && sessions.dom().contains(raw_id) ==> {
                        &&& r is Ok
                        &&& after.dom() == sessions.dom()
                        &&& after[raw_id].worker == sessions[raw_id].worker
                        &&& after[raw_id].preview == resolution
                    }
                },
            }
        }),
{
    reveal_strlit("x");
    assert("x"@ =~= seq!['x']);
    if let Ok(sizes) = available {
        let there = exists|i: int|
            0 <= i < sizes.len() && (#[trigger] sizes[i]).width == resolution.width
                && sizes[i].height == resolution.height;
        if there {
            let i = choose|i: int|
                0 <= i < sizes.len() && (#[trigger] sizes[i]).width == resolution.width
                    && sizes[i].height == resolution.height;
            assert(sizes[i] == resolution);
            assert(sizes.contains(resolution));
            if sessions.dom().contains(raw_id) {
                let after = set_preview_run(sessions, available, raw_id, resolution).0;
                assert(after.dom() =~= sessions.dom());
            }
        }
        if sizes.contains(resolution) {
            let i = sizes.index_of(resolution);
            assert(sizes[i].width == resolution.width);
        }
    }
}

/// A photo comes from a session exactly where it asks for the size of its preview; the size that
/// is read back is that of the session.
pub proof fn a_photo_of_the_preview_comes_from_the_session(
    sessions: Map<Seq<char>, PreviewSession>,
    raw_id: Seq<char>,
    preferred: Option<CameraResolution>,
)
    ensures
        sessions.dom().contains(raw_id) ==> preview_of(sessions, raw_id) == Some(
            sessions[raw_id].preview,
        ),
        !sessions.dom().contains(raw_id) ==> preview_of(sessions, raw_id) is None,
        polled_session(sessions, raw_id, preferred) is Some <==> sessions.dom().contains(raw_id)
            && preferred == Some(sessions[raw_id].preview),
        polled_session(sessions, raw_id, preferred) matches Some(worker) ==> worker
            == sessions[raw_id].worker,
{
}

/// The steps of opening a session are compared by what they hold.
pub proof fn steps_are_seen_by_what_they_hold(e: CameraError)
    ensures
        ConnectStep::StartWorker@ is StartWorker,
        ConnectStep::Finish(Ok(()))@ == ConnectStepView::Finish(Ok(())),
        ConnectStep::Finish(Err(e))@ == ConnectStepView::Finish(Err(e@)),
{
}

}
