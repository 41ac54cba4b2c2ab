//! Webcams on macOS.

use crate::backends::actor;
use crate::camera;
use crate::camera::{
    CameraError, CameraErrorView, CameraParameter, DeviceId, DeviceInfo, DeviceInfoView,
};
use crate::sessions::SessionTable;
use crate::text;
use vstd::prelude::*;
use vstd::utf8::*;

verus! {

/// The status of a failed call into the bridge that has none of its own.
pub const BRIDGE_FAILED: u32 = 0xFFFF_FFFF;

/// The status where no frame could be captured.
pub const CAPTURE_FAILED: u32 = 0xFFFF_FFFE;

/// How many devices the bridge is asked for at most.
pub const MAX_DEVICES: usize = 32;

/// The handle of an open session; zero is no session.
pub type SessionRef = u64;

/// The C buffers in which the bridge describes a device.
#[derive(Debug, PartialEq, Eq)]
pub struct RawDevice {
    pub unique_id: Vec<u8>,
    pub name: Vec<u8>,
}

/// What opening a session asks for next.
#[derive(Debug, PartialEq, Eq)]
pub enum ConnectStep {
    /// Opens a session with the device that this C string names.
    OpenSession(Vec<u8>),
    /// Answers the result.
    Finish(Result<(), CameraError>),
}

/// AVFoundation backend: the sessions that are open on its thread.
pub struct AvFoundationBackend {
    sessions: SessionTable<SessionRef>,
}

impl View for AvFoundationBackend {
    type V = Map<Seq<char>, SessionRef>;

    closed spec fn view(&self) -> Map<Seq<char>, SessionRef> {
        self.sessions@
    }
}

/// What clients are told about a device.
pub open spec fn device_in(
    sessions: Map<Seq<char>, SessionRef>,
    device: RawDevice,
) -> DeviceInfoView {
    DeviceInfoView {
        id: camera::encoded_id("avfoundation"@, text::c_text(device.unique_id@)),
        name: text::c_text(device.name@),
        connected: sessions.dom().contains(text::c_text(device.unique_id@)),
    }
}

/// How many of the buffers the bridge filled, of the count that it returned.
pub open spec fn filled(count: i32, capacity: nat) -> nat {
    if count < capacity {
        count as nat
    } else {
        capacity
    }
}

/// The zero-terminated C string of `s`.
pub open spec fn c_string(s: Seq<char>) -> Seq<u8> {
    encode_utf8(s).push(0)
}

/// Whether a device can be named in a C string.
pub open spec fn is_c_nameable(s: Seq<char>) -> bool {
    !encode_utf8(s).contains(0u8)
}

/// What came of opening a session, of the handle that the bridge returns for the device.
pub open spec fn connect_run(
    sessions: Map<Seq<char>, SessionRef>,
    device_id: Seq<char>,
    handle: SessionRef,
) -> (Map<Seq<char>, SessionRef>, Result<(), CameraErrorView>) {
    if sessions.dom().contains(device_id) {
        (sessions, Ok(()))
    } else if !is_c_nameable(device_id) {
        (sessions, Err(CameraErrorView::InvalidDeviceId))
    } else {
        opened_run(sessions, device_id, handle)
    }
}

/// What the handle that the bridge returned leads to.
pub open spec fn opened_run(
    sessions: Map<Seq<char>, SessionRef>,
    device_id: Seq<char>,
    handle: SessionRef,
) -> (Map<Seq<char>, SessionRef>, Result<(), CameraErrorView>) {
    if handle == 0 {
        (sessions, Err(CameraErrorView::DeviceNotFound(device_id)))
    } else {
        (sessions.insert(device_id, handle), Ok(()))
    }
}

impl AvFoundationBackend {
    /// A backend on which no session is open, where its thread could be spawned.
    pub fn new(spawned: bool) -> (backend: Result<Self, CameraError>)
        ensures
            match backend {
                Ok(b) => spawned && b@ == Map::<Seq<char>, SessionRef>::empty(),
                Err(e) => !spawned && e@ == CameraErrorView::SdkError(actor::THREAD_LOST),
            },
    {
        if spawned {
            Ok(AvFoundationBackend { sessions: SessionTable::new() })
        } else {
            Err(CameraError::SdkError(actor::THREAD_LOST))
        }
    }

    pub fn backend_id(&self) -> (id: &str)
        ensures
            id@ == "avfoundation"@,
    {
        "avfoundation"
    }

    /// The devices that the bridge described, of the count that it returned.
    pub fn list_devices(&self, count: i32, buffers: &Vec<RawDevice>) -> (devices: Result<
        Vec<DeviceInfo>,
        CameraError,
    >)
        ensures
            match devices {
                Ok(d) => count >= 0 && d@.map_values(|i: DeviceInfo| i@) == buffers@.take(
                    filled(count, buffers@.len()) as int,
                ).map_values(|r: RawDevice| device_in(self@, r)),
                Err(e) => count < 0 && e@ == CameraErrorView::SdkError(BRIDGE_FAILED),
            },
    {
        if count < 0 {
            return Err(CameraError::SdkError(BRIDGE_FAILED));
        }
        let mut devices: Vec<DeviceInfo> = Vec::new();
        let mut i: usize = 0;
        while i < buffers.len() && (i as u64) < count as u64
            invariant
                count >= 0,
                i <= filled(count, buffers@.len()),
                devices@.len() == i,
                forall|j: int|
                    0 <= j < i ==> (#[trigger] devices@[j])@ == device_in(self@, buffers@[j]),
            decreases buffers@.len() - i,
        {
            let native_id = text::c_buffer_text(buffers[i].unique_id.as_slice());
            let name = text::c_buffer_text(buffers[i].name.as_slice());
            let id = DeviceId::new("avfoundation", native_id.as_str()).encode();
            let connected = self.sessions.contains(native_id.as_str());
            devices.push(DeviceInfo { id, name, connected });
            i += 1;
        }
        assert(i == filled(count, buffers@.len()));
        assert(devices@.map_values(|i: DeviceInfo| i@) =~= buffers@.take(i as int).map_values(
            |r: RawDevice| device_in(self@, r),
        ));
        Ok(devices)
    }

    /// Begins to open a session; where one is open already there is nothing to do.
    pub fn connect(&self, device_id: &str) -> (step: ConnectStep)
        ensures
            match step {
                ConnectStep::OpenSession(name) => {
                    &&& !self@.dom().contains(device_id@)
                    &&& is_c_nameable(device_id@)
                    &&& name@ == c_string(device_id@)
                    &&& forall|handle: SessionRef| #[trigger]
                        connect_run(self@, device_id@, handle) == opened_run(
                            self@,
                            device_id@,
                            handle,
                        )
                },
                ConnectStep::Finish(Ok(_)) => self@.dom().contains(device_id@),
                ConnectStep::Finish(Err(e)) => {
                    &&& !self@.dom().contains(device_id@)
                    &&& !is_c_nameable(device_id@)
                    &&& e@ == CameraErrorView::InvalidDeviceId
                },
            },
    {
        if self.sessions.contains(device_id) {
            return ConnectStep::Finish(Ok(()));
        }
        let bytes = device_id.as_bytes();
        let mut name: Vec<u8> = Vec::new();
        let mut i: usize = 0;
        while i < bytes.len()
            invariant
                bytes@ == encode_utf8(device_id@),
                i <= bytes@.len(),
                name@ == bytes@.take(i as int),
                forall|j: int| 0 <= j < i ==> bytes@[j] != 0,
                !self@.dom().contains(device_id@),
            decreases bytes@.len() - i,
        {
            if bytes[i] == 0 {
                return ConnectStep::Finish(Err(CameraError::InvalidDeviceId));
            }
            name.push(bytes[i]);
            i += 1;
            assert(name@ =~= bytes@.take(i as int));
        }
        name.push(0);
        assert(name@ =~= c_string(device_id@));
        ConnectStep::OpenSession(name)
    }

    /// What the handle that the bridge returned leads to.
    pub fn session_opened(&mut self, device_id: &str, handle: SessionRef) -> (r: Result<
        (),
        CameraError,
    >)
        ensures
            (final(self)@, camera::viewed_plain(r)) == opened_run(
                old(self)@,
                device_id@,
                handle,
            ),
    {
        if handle == 0 {
            return Err(CameraError::DeviceNotFound(device_id.to_owned()));
        }
        self.sessions.insert(device_id, handle);
        Ok(())
    }

    /// Takes the session of a device out; its handle is to be closed.
    pub fn disconnect(&mut self, device_id: &str) -> (handle: Result<SessionRef, CameraError>)
        ensures
            (final(self)@, camera::viewed_plain(handle)) == actor::disconnect_turn(
                old(self)@,
                device_id@,
            ),
    {
        assert(!self@.dom().contains(device_id@) ==> self@.remove(device_id@) =~= self@);
        match self.sessions.remove(device_id) {
            Some(handle) => Ok(handle),
            None => Err(CameraError::DeviceNotFound(device_id.to_owned())),
        }
    }

    pub fn is_connected(&self, native_id: &str) -> (yes: bool)
        ensures
            yes == self@.dom().contains(native_id@),
    {
        self.sessions.contains(native_id)
    }

    /// The handle of an open session, from which a frame can be captured.
    pub fn session(&self, device_id: &str) -> (handle: Result<SessionRef, CameraError>)
        ensures
            camera::viewed_plain(handle) == if self@.dom().contains(device_id@) {
                Ok(self@[device_id@])
            } else {
                Err(CameraErrorView::NotConnected)
            },
    {
        match self.sessions.get(device_id) {
            Some(handle) => Ok(*handle),
            None => Err(CameraError::NotConnected),
        }
    }

    /// Webcams have no parameters here.
    pub fn get_parameters(&self, native_id: &str) -> (parameters: Result<
        Vec<CameraParameter>,
        CameraError,
    >)
        ensures
            parameters matches Ok(p) && p@.len() == 0,
    {
        Ok(Vec::new())
    }

    pub fn set_parameter(&self, native_id: &str, kind: &str, value: i32) -> (r: Result<
        (),
        CameraError,
    >)
        ensures
            r matches Err(e) && e@ == CameraErrorView::NotSupported,
    {
        Err(CameraError::NotSupported)
    }

    /// Ends the backend; the handles of all open sessions are to be closed.
    pub fn shut_down(self) -> (sessions: Vec<(String, SessionRef)>)
        ensures
            crate::sessions::distinct_devices(sessions@),
            crate::sessions::entry_map(sessions@) == self@,
    {
        self.sessions.into_entries()
    }
}

/// Whether a capture gave a frame to copy: it has to succeed and to hand out a buffer.
pub fn frame_captured(status: i32, has_buffer: bool) -> (r: Result<(), CameraError>)
    ensures
        match r {
            Ok(_) => status == 0 && has_buffer,
            Err(e) => !(status == 0 && has_buffer) && e@ == CameraErrorView::SdkError(
                CAPTURE_FAILED,
            ),
        },
{
    if status != 0 || !has_buffer {
        return Err(CameraError::SdkError(CAPTURE_FAILED));
    }
    Ok(())
}

/// What opening a session gives, of the handle that the bridge returns.
pub open spec fn opening(device_id: Seq<char>, handle: SessionRef) -> Result<
    SessionRef,
    CameraErrorView,
> {
    if !is_c_nameable(device_id) {
        Err(CameraErrorView::InvalidDeviceId)
    } else if handle == 0 {
        Err(CameraErrorView::DeviceNotFound(device_id))
    } else {
        Ok(handle)
    }
}

/// Connecting a device is the turn of a backend thread that serves the command, and so all that
/// holds of the run of such a thread holds here.
pub proof fn connect_is_a_turn_of_the_thread(
    sessions: Map<Seq<char>, SessionRef>,
    device_id: Seq<char>,
    handle: SessionRef,
)
    ensures
        connect_run(sessions, device_id, handle) == actor::connect_turn(
            sessions,
            device_id,
            opening(device_id, handle),
        ),
{
}

/// Connecting a connected device changes nothing.
pub proof fn connect_is_idempotent(
    sessions: Map<Seq<char>, SessionRef>,
    device_id: Seq<char>,
    handle: SessionRef,
)
    requires
        sessions.dom().contains(device_id),
    ensures
        connect_run(sessions, device_id, handle) == (sessions, Ok::<(), CameraErrorView>(())),
{
}

/// Connecting a device succeeds exactly where it is connected behind it, fails with the
/// sessions as they were, and never touches those of other devices.
pub proof fn connect_opens_one_session(
    sessions: Map<Seq<char>, SessionRef>,
    device_id: Seq<char>,
    handle: SessionRef,
)
    ensures
        ({
            let (after, r) = connect_run(sessions, device_id, handle);
            &&& r is Ok <==> after.dom().contains(device_id)
            &&& r is Err ==> after == sessions
            &&& after.remove(device_id) == sessions.remove(device_id)
        }),
{
    let (after, r) = connect_run(sessions, device_id, handle);
    assert(after.remove(device_id) =~= sessions.remove(device_id));
}

/// Disconnecting a device that was just connected hands out its handle and leaves the sessions
/// as they were before.
pub proof fn disconnect_undoes_connect(
    sessions: Map<Seq<char>, SessionRef>,
    device_id: Seq<char>,
    handle: SessionRef,
)
    requires
        !sessions.dom().contains(device_id),
        is_c_nameable(device_id),
        handle != 0,
    ensures
        ({
            let (after, r) = connect_run(sessions, device_id, handle);
            &&& r is Ok
            &&& after[device_id] == handle
            &&& after.remove(device_id) == sessions
        }),
{
    let (after, r) = connect_run(sessions, device_id, handle);
    assert(after.remove(device_id) =~= sessions);
}

/// The bridge fills as many buffers as it counts devices, and no more than there are; it is asked
/// for thirty-two at most.
pub proof fn no_more_buffers_are_filled_than_there_are(count: i32, capacity: nat)
    requires
        count >= 0,
    ensures
        filled(count, capacity) <= count,
        filled(count, capacity) <= capacity,
        filled(count, capacity) == count || filled(count, capacity) == capacity,
        MAX_DEVICES == 32,
{
}

/// A device is listed by the identifier and under the name in its buffers, and as connected
/// exactly where a session is open for it.
pub proof fn a_device_is_listed_as_its_buffers_say(
    sessions: Map<Seq<char>, SessionRef>,
    device: RawDevice,
)
    ensures
        device_in(sessions, device).id == camera::encoded_id(
            "avfoundation"@,
            text::c_text(device.unique_id@),
        ),
        device_in(sessions, device).name == text::c_text(device.name@),
        device_in(sessions, device).connected <==> sessions.dom().contains(
            text::c_text(device.unique_id@),
        ),
{
}

/// The bridge reads back the identifier that it is handed: its C string ends with a zero byte and
/// holds no other, and its text is the identifier.
pub proof fn the_bridge_is_handed_the_identifier(device_id: Seq<char>)
    requires
        is_c_nameable(device_id),
    ensures
        c_string(device_id).len() == encode_utf8(device_id).len() + 1,
        c_string(device_id).last() == 0,
        text::before_nul(c_string(device_id)) == encode_utf8(device_id),
        text::c_text(c_string(device_id)) == text::utf8_lossy(encode_utf8(device_id)),
{
    let bytes = encode_utf8(device_id);
    let buffer = c_string(device_id);
    let n = bytes.len() as int;
    assert(buffer[n] == 0);
    buffer.index_of_first_ensures(0u8);
    let k = buffer.index_of_first(0u8)->Some_0;
    assert(k == n) by {
        if k < n {
            assert(bytes[k] == 0);
        }
        if k > n {
            assert(buffer[n] == 0);
        }
    }
    assert(buffer.take(n) =~= bytes);
}

/// An identifier is refused exactly where it has a zero byte.
pub proof fn an_identifier_is_refused_for_a_zero_byte(device_id: Seq<char>)
    ensures
        !is_c_nameable(device_id) <==> exists|i: int|
            0 <= i < encode_utf8(device_id).len() && encode_utf8(device_id)[i] == 0,
{
    let bytes = encode_utf8(device_id);
    if !is_c_nameable(device_id) {
        let i = choose|i: int| 0 <= i < bytes.len() && bytes[i] == 0u8;
        assert(bytes[i] == 0);
    }
}

/// A handle of zero is no session: the device is not found. Every other handle is kept for the
/// device.
pub proof fn a_session_is_kept_by_its_handle(
    sessions: Map<Seq<char>, SessionRef>,
    device_id: Seq<char>,
    handle: SessionRef,
)
    ensures
        handle == 0 ==> opened_run(sessions, device_id, handle) == (
            sessions,
            Err::<(), CameraErrorView>(CameraErrorView::DeviceNotFound(device_id)),
        ),
        handle != 0 ==> opened_run(sessions, device_id, handle) == (
            sessions.insert(device_id, handle),
            Ok::<(), CameraErrorView>(()),
        ),
{
}

}
