//! DirectShow cameras.

pub mod calls;
pub mod devices;
pub mod dib;
pub mod graph;

use crate::camera;
use crate::camera::indexed;
use crate::camera::{CameraDevice, CameraError, CameraErrorView};
use crate::sessions::SessionTable;
use vstd::prelude::*;

verus! {

/// How long a photo waits for the next frame of a session, in milliseconds.
pub const POLL_PAUSE_MS: u64 = 50;

/// The worker of an open session and the place of its latest frame.
pub type WorkerRef = u64;

/// DirectShow backend: the sessions whose workers run.
pub struct DirectShowBackend {
    sessions: SessionTable<WorkerRef>,
}

impl View for DirectShowBackend {
    type V = Map<Seq<char>, WorkerRef>;

    closed spec fn view(&self) -> Map<Seq<char>, WorkerRef> {
        self.sessions@
    }
}

/// What opening a session asks for next.
#[derive(Debug, PartialEq, Eq)]
pub enum ConnectStep {
    /// Starts a worker for the camera.
    StartWorker,
    /// Answers.
    Finish(Result<(), CameraError>),
}

/// The mathematical content of a [`ConnectStep`].
pub enum ConnectStepView {
    StartWorker,
    Finish(Result<(), CameraErrorView>),
}

impl View for ConnectStep {
    type V = ConnectStepView;

    open spec fn view(&self) -> ConnectStepView {
        match *self {
            ConnectStep::StartWorker => ConnectStepView::StartWorker,
            ConnectStep::Finish(r) => ConnectStepView::Finish(camera::viewed_plain(r)),
        }
    }
}

/// How opening a session begins, of the cameras that are listed. The camera has to be there even
/// where its session is open already.
pub open spec fn connect_step(
    sessions: Map<Seq<char>, WorkerRef>,
    devices: Result<Seq<CameraDevice>, CameraErrorView>,
    raw_id: Seq<char>,
) -> ConnectStepView {
    match devices {
        Err(e) => ConnectStepView::Finish(Err(e)),
        Ok(d) => if !indexed::is_listed(d, raw_id) {
            ConnectStepView::Finish(Err(indexed::not_found("dshow"@, raw_id)))
        } else if sessions.dom().contains(raw_id) {
            ConnectStepView::Finish(Ok(()))
        } else {
            ConnectStepView::StartWorker
        },
    }
}

/// The sessions and the answer behind opening a session with `worker`.
pub open spec fn connect_run(
    sessions: Map<Seq<char>, WorkerRef>,
    devices: Result<Seq<CameraDevice>, CameraErrorView>,
    raw_id: Seq<char>,
    worker: WorkerRef,
) -> (Map<Seq<char>, WorkerRef>, Result<(), CameraErrorView>) {
    match connect_step(sessions, devices, raw_id) {
        ConnectStepView::StartWorker => (sessions.insert(raw_id, worker), Ok(())),
        ConnectStepView::Finish(r) => (sessions, r),
    }
}

/// The error where the table of the sessions cannot be had.
pub fn sessions_lost() -> (e: CameraError)
    ensures
        e@ == CameraErrorView::BackendFailure("session lock poisoned"@),
{
    CameraError::BackendFailure("session lock poisoned".to_owned())
}

/// The error of a capture where there is no DirectShow.
pub fn unavailable() -> (e: CameraError)
    ensures
        e@ == CameraErrorView::BackendUnavailable(
            "directshow backend is only available on Windows"@,
        ),
{
    CameraError::BackendUnavailable("directshow backend is only available on Windows".to_owned())
}

impl DirectShowBackend {
    /// A backend on which no session is open.
    pub fn new() -> (backend: Self)
        ensures
            backend@ == Map::<Seq<char>, WorkerRef>::empty(),
    {
        DirectShowBackend { sessions: SessionTable::new() }
    }

    pub fn backend_id(&self) -> (id: &str)
        ensures
            id@ == "dshow"@,
    {
        "dshow"
    }

    /// Begins to open a session, of the cameras that are listed.
    pub fn connect(&self, devices: Result<Vec<CameraDevice>, CameraError>, raw_id: &str) -> (step:
        ConnectStep)
        ensures
            step@ == connect_step(self@, camera::viewed(devices), raw_id@),
    {
        let devices = match devices {
            Ok(devices) => devices,
            Err(e) => {
                return ConnectStep::Finish(Err(e));
            },
        };
        if !indexed::listed(&devices, raw_id) {
            return ConnectStep::Finish(Err(indexed::camera_not_found("dshow", raw_id)));
        }
        if self.sessions.contains(raw_id) {
            return ConnectStep::Finish(Ok(()));
        }
        ConnectStep::StartWorker
    }

    /// Keeps the worker that was started for a camera.
    pub fn worker_started(&mut self, raw_id: &str, worker: WorkerRef)
        ensures
            final(self)@ == old(self)@.insert(raw_id@, worker),
    {
        self.sessions.insert(raw_id, worker)
    }

    /// Takes the session of a camera out; its worker, where there is one, is to be stopped.
    pub fn disconnect(&mut self, raw_id: &str) -> (worker: Option<WorkerRef>)
        ensures
            final(self)@ == old(self)@.remove(raw_id@),
            worker == if old(self)@.dom().contains(raw_id@) {
                Some(old(self)@[raw_id@])
            } else {
                None
            },
    {
        self.sessions.remove(raw_id)
    }

    pub fn is_connected(&self, raw_id: &str) -> (yes: bool)
        ensures
            yes == self@.dom().contains(raw_id@),
    {
        self.sessions.contains(raw_id)
    }

    /// The session that a photo asks for its latest frame; where there is none the photo is
    /// captured without a session.
    pub fn capture_photo_jpeg(&self, raw_id: &str) -> (worker: Option<WorkerRef>)
        ensures
            worker == if self@.dom().contains(raw_id@) {
                Some(self@[raw_id@])
            } else {
                None
            },
    {
        match self.sessions.get(raw_id) {
            Some(worker) => Some(*worker),
            None => None,
        }
    }
}

/// Connecting a connected camera that is still there changes nothing and starts no worker.
pub proof fn connect_is_idempotent(
    sessions: Map<Seq<char>, WorkerRef>,
    devices: Seq<CameraDevice>,
    raw_id: Seq<char>,
    worker: WorkerRef,
)
    requires
        sessions.dom().contains(raw_id),
        indexed::is_listed(devices, raw_id),
    ensures
        connect_step(sessions, Ok(devices), raw_id) is Finish,
        connect_run(sessions, Ok(devices), raw_id, worker) == (
            sessions,
            Ok::<(), CameraErrorView>(()),
        ),
{
}

/// A camera that was connected is connected; where connecting fails the sessions are as they
/// were, and those of other cameras are never touched.
pub proof fn connect_opens_one_session(
    sessions: Map<Seq<char>, WorkerRef>,
    devices: Result<Seq<CameraDevice>, CameraErrorView>,
    raw_id: Seq<char>,
    worker: WorkerRef,
)
    ensures
        ({
            let (after, r) = connect_run(sessions, devices, raw_id, worker);
            &&& r is Ok ==> after.dom().contains(raw_id)
            &&& r is Err ==> after == sessions
            &&& after.remove(raw_id) == sessions.remove(raw_id)
        }),
{
    let (after, r) = connect_run(sessions, devices, raw_id, worker);
    assert(after.remove(raw_id) =~= sessions.remove(raw_id));
}

/// Disconnecting a camera that was just connected hands out its worker and leaves the sessions
/// as they were before; disconnecting it once more changes nothing.
pub proof fn disconnect_undoes_connect(
    sessions: Map<Seq<char>, WorkerRef>,
    devices: Seq<CameraDevice>,
    raw_id: Seq<char>,
    worker: WorkerRef,
)
    requires
        !sessions.dom().contains(raw_id),
        indexed::is_listed(devices, raw_id),
    ensures
        ({
            let (after, r) = connect_run(sessions, Ok(devices), raw_id, worker);
            &&& r is Ok
            &&& after[raw_id] == worker
            &&& after.remove(raw_id) == sessions
            &&& sessions.remove(raw_id) == sessions
        }),
{
    let (after, r) = connect_run(sessions, Ok(devices), raw_id, worker);
    assert(after.remove(raw_id) =~= sessions);
    assert(sessions.remove(raw_id) =~= sessions);
}

/// A camera that is not listed cannot be connected, whether a session is open or not, and the
/// error names it; where the cameras cannot be listed, their error is answered. A listed camera
/// is connected, with a worker of its own where it has none.
pub proof fn only_listed_cameras_are_connected(
    sessions: Map<Seq<char>, WorkerRef>,
    devices: Result<Seq<CameraDevice>, CameraErrorView>,
    raw_id: Seq<char>,
)
    ensures
        devices matches Err(e) ==> connect_step(sessions, devices, raw_id)
            == ConnectStepView::Finish(Err(e)),
        devices matches Ok(d) ==> {
            let there = exists|i: int| 0 <= i < d.len() && (#[trigger] d[i]).raw_id@ == raw_id;
            &&& !there ==> connect_step(sessions, devices, raw_id) == ConnectStepView::Finish(
                Err(
                    CameraErrorView::CameraNotFound(
                        "camera not found: "@ + ("dshow"@ + ":"@ + raw_id),
                    ),
                ),
            )
            &&& there && sessions.dom().contains(raw_id) ==> connect_step(sessions, devices, raw_id)
                == ConnectStepView::Finish(Ok(()))
            &&& there && !sessions.dom().contains(raw_id) ==> connect_step(
                sessions,
                devices,
                raw_id,
            ) == ConnectStepView::StartWorker
        },
        POLL_PAUSE_MS == 50,
{
}

/// The steps of opening a session are compared by what they hold.
pub proof fn steps_are_seen_by_what_they_hold(e: CameraError)
    ensures
        ConnectStep::StartWorker@ is StartWorker,
        ConnectStep::Finish(Ok(()))@ == ConnectStepView::Finish(Ok(())),
        ConnectStep::Finish(Err(e))@ == ConnectStepView::Finish(Err(e@)),
{
}

}
