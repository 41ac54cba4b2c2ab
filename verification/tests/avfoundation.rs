use toucan_camera_server::backends::actor::{next_step, LoopStep, Received};
use toucan_camera_server::backends::avfoundation::{
    frame_captured, AvFoundationBackend, ConnectStep, RawDevice,
};
use toucan_camera_server::camera::{CameraError, DeviceId};

fn backend() -> AvFoundationBackend {
    AvFoundationBackend::new(true).ok().unwrap()
}

fn device(unique_id: &str, name: &str) -> RawDevice {
    let buffer = |s: &str| {
        let mut bytes = s.as_bytes().to_vec();
        bytes.push(0);
        bytes.push(b'x');
        bytes
    };
    RawDevice { unique_id: buffer(unique_id), name: buffer(name) }
}

#[test]
fn a_macos_backend_needs_its_thread() {
    assert_eq!(backend().backend_id(), "avfoundation");
    assert_eq!(AvFoundationBackend::new(false).err(), Some(CameraError::SdkError(0xFFFF_FFFF)));
}

#[test]
fn macos_webcams_are_listed() {
    let mut backend = backend();
    assert_eq!(backend.session_opened("two", 9), Ok(()));
    let buffers = vec![device("one", "FaceTime HD"), device("two", "C920"), device("three", "")];
    let devices = backend.list_devices(2, &buffers).unwrap();
    assert_eq!(devices.len(), 2);
    assert_eq!(devices[0].id, DeviceId::new("avfoundation", "one").encode());
    assert_eq!(devices[0].name, "FaceTime HD");
    assert!(!devices[0].connected);
    assert_eq!(devices[1].name, "C920");
    assert!(devices[1].connected);
    assert_eq!(backend.list_devices(9, &buffers).unwrap().len(), 3);
    assert_eq!(backend.list_devices(0, &buffers), Ok(vec![]));
    assert_eq!(backend.list_devices(-1, &buffers), Err(CameraError::SdkError(0xFFFF_FFFF)));
}

#[test]
fn a_macos_session_is_opened_by_name() {
    let mut backend = backend();
    assert_eq!(backend.connect("é1"), ConnectStep::OpenSession("é1\0".as_bytes().to_vec()));
    assert_eq!(backend.session_opened("é1", 4), Ok(()));
    assert_eq!(backend.connect("é1"), ConnectStep::Finish(Ok(())));
    assert_eq!(backend.session("é1"), Ok(4));
    assert!(backend.is_connected("é1"));
}

#[test]
fn a_name_with_a_zero_byte_is_refused() {
    assert_eq!(
        backend().connect("a\0b"),
        ConnectStep::Finish(Err(CameraError::InvalidDeviceId))
    );
}

#[test]
fn a_macos_webcam_that_is_gone_is_not_found() {
    let mut backend = backend();
    assert_eq!(
        backend.session_opened("one", 0),
        Err(CameraError::DeviceNotFound("one".to_string()))
    );
    assert!(!backend.is_connected("one"));
    assert_eq!(backend.session("one"), Err(CameraError::NotConnected));
}

#[test]
fn a_macos_session_is_closed() {
    let mut backend = backend();
    assert_eq!(backend.session_opened("one", 1), Ok(()));
    assert_eq!(backend.session_opened("two", 2), Ok(()));
    assert_eq!(backend.disconnect("one"), Ok(1));
    assert_eq!(backend.disconnect("one"), Err(CameraError::DeviceNotFound("one".to_string())));
    assert!(backend.is_connected("two"));
    assert_eq!(backend.shut_down(), vec![("two".to_string(), 2)]);
}

#[test]
fn a_capture_has_to_succeed_with_a_buffer() {
    assert_eq!(frame_captured(0, true), Ok(()));
    assert_eq!(frame_captured(0, false), Err(CameraError::SdkError(0xFFFF_FFFE)));
    assert_eq!(frame_captured(-1, true), Err(CameraError::SdkError(0xFFFF_FFFE)));
}

#[test]
fn macos_webcams_have_no_parameters() {
    assert_eq!(backend().get_parameters("one"), Ok(vec![]));
    assert_eq!(backend().set_parameter("one", "x", 1), Err(CameraError::NotSupported));
}

#[derive(Debug, PartialEq)]
enum Asked {
    Connect(&'static str, u64),
    Disconnect(&'static str),
    IsConnected(&'static str),
}

#[derive(Debug, PartialEq)]
enum Answer {
    Done(Result<(), CameraError>),
    Connected(bool),
}

#[test]
fn a_thread_answers_each_command_in_its_turn_and_closes_each_session_once() {
    let received = vec![
        Received::Command(Asked::IsConnected("a")),
        Received::Command(Asked::Connect("a", 7)),
        Received::Timeout,
        Received::Command(Asked::Connect("b", 0)),
        Received::Command(Asked::Connect("b", 8)),
        Received::Command(Asked::Connect("a", 9)),
        Received::Command(Asked::IsConnected("a")),
        Received::Command(Asked::Disconnect("a")),
        Received::Command(Asked::IsConnected("a")),
        Received::Command(Asked::Disconnect("a")),
        Received::Command(Asked::Connect("a", 10)),
        Received::Shutdown,
        Received::Command(Asked::IsConnected("b")),
    ];
    let mut backend = backend();
    let (mut answers, mut closed) = (Vec::new(), Vec::new());
    for message in received {
        let command = match next_step(message) {
            LoopStep::Serve(command) => command,
            LoopStep::Wait => continue,
            LoopStep::Stop => break,
        };
        answers.push(match command {
            Asked::IsConnected(id) => Answer::Connected(backend.is_connected(id)),
            Asked::Connect(id, handle) => Answer::Done(match backend.connect(id) {
                ConnectStep::OpenSession(_) => backend.session_opened(id, handle),
                ConnectStep::Finish(r) => r,
            }),
            Asked::Disconnect(id) => Answer::Done(backend.disconnect(id).map(|h| closed.push(h))),
        });
    }
    let missing = |id: &str| Answer::Done(Err(CameraError::DeviceNotFound(id.to_string())));
    assert_eq!(
        answers,
        vec![
            Answer::Connected(false),
            Answer::Done(Ok(())),
            missing("b"),
            Answer::Done(Ok(())),
            Answer::Done(Ok(())),
            Answer::Connected(true),
            Answer::Done(Ok(())),
            Answer::Connected(false),
            missing("a"),
            Answer::Done(Ok(())),
        ]
    );
    closed.extend(backend.shut_down().into_iter().map(|(_, handle)| handle));
    closed.sort();
    assert_eq!(closed, vec![7, 8, 10]);
}
