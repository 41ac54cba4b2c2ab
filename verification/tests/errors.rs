use toucan_camera_server::backends::actor::{
    answered, answered_flag, next_step, LoopStep, Received, THREAD_LOST,
};
use toucan_camera_server::camera::CameraError;

#[test]
fn every_error_has_its_message() {
    let s = |t: &str| t.to_string();
    for (error, message) in [
        (CameraError::SdkError(0x81), "SDK error: 0x00000081"),
        (CameraError::SdkError(0xFFFF_FFFF), "SDK error: 0xffffffff"),
        (CameraError::SdkError(0xA102_0003), "SDK error: 0xa1020003"),
        (CameraError::DeviceNotFound(s("USB:0,1,0")), "device not found: USB:0,1,0"),
        (CameraError::InvalidDeviceId, "invalid device id"),
        (CameraError::NotConnected, "no session open for this device"),
        (CameraError::NotSupported, "operation not supported by this backend"),
        (CameraError::BackendFailure(s("a")), "a"),
        (CameraError::InvalidCameraId(s("b")), "b"),
        (CameraError::CameraNotFound(s("c")), "c"),
        (CameraError::CameraNotConnected(s("d")), "d"),
        (CameraError::BackendUnavailable(s("e")), "e"),
    ] {
        assert_eq!(error.message(), message);
    }
}

#[test]
fn a_status_is_shown_as_std_formats_it() {
    for code in [0u32, 1, 9, 10, 15, 16, 255, 256, 0xDEAD_0001, 0x7FFF_FFFF, 0x8000_0000] {
        assert_eq!(CameraError::SdkError(code).message(), format!("SDK error: {:#010x}", code));
    }
}

#[test]
fn a_backend_thread_stops_when_told_and_when_alone() {
    assert_eq!(next_step(Received::Command(7)), LoopStep::Serve(7));
    assert_eq!(next_step::<u8>(Received::Shutdown), LoopStep::Stop);
    assert_eq!(next_step::<u8>(Received::Disconnected), LoopStep::Stop);
    assert_eq!(next_step::<u8>(Received::Timeout), LoopStep::Wait);
}

#[test]
fn a_lost_thread_is_reported() {
    assert_eq!(answered(true, Some(Ok(5))), Ok(5));
    assert_eq!(
        answered::<u8>(true, Some(Err(CameraError::NotConnected))),
        Err(CameraError::NotConnected)
    );
    assert_eq!(answered::<u8>(true, None), Err(CameraError::SdkError(0xFFFF_FFFF)));
    assert_eq!(answered(false, Some(Ok(5))), Err(CameraError::SdkError(THREAD_LOST)));
    assert!(answered_flag(true, Some(true)));
    assert!(!answered_flag(true, Some(false)));
    assert!(!answered_flag(true, None));
    assert!(!answered_flag(false, Some(true)));
}
