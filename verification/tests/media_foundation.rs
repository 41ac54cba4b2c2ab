use toucan_camera_server::camera::indexed::kept_frame;
use toucan_camera_server::camera::media_foundation::calls::{
    no_attributes, source_names, MediaCall, SourceSlot,
};
use toucan_camera_server::camera::media_foundation::frames::{
    FrameSearch, FrameStep, PreviewReader, PreviewStep, SampleRead,
};
use toucan_camera_server::camera::media_foundation::modes::{
    enumerate_mjpg_native_modes, modes_to_resolutions, select_mode_index, NativeMode, NativeType,
    SelectionPolicy,
};
use toucan_camera_server::camera::media_foundation::{
    activate_for_raw_id, choose_mode, enumerate_devices, list_cameras, list_resolutions,
    sessions_lost, unavailable, ConnectStep, MediaFoundationBackend,
};
use toucan_camera_server::camera::{CameraDevice, CameraError, CameraResolution};

fn failure(message: &str) -> CameraError {
    CameraError::BackendFailure(message.to_string())
}

fn size(width: u32, height: u32) -> CameraResolution {
    CameraResolution { width, height }
}

fn native(is_mjpg: bool, width: u32, height: u32) -> NativeType {
    NativeType { is_mjpg, frame_size: Some(((width as u64) << 32) | height as u64) }
}

fn mode(index: usize, width: u32, height: u32) -> NativeMode {
    NativeMode { index, width, height }
}

fn natives() -> Vec<NativeType> {
    vec![
        native(true, 640, 480),
        native(false, 3840, 2160),
        native(true, 1920, 1080),
        NativeType { is_mjpg: true, frame_size: None },
        native(true, 640, 480),
        native(true, 2592, 1944),
        native(true, 480, 640),
    ]
}

#[test]
fn mjpg_modes_are_listed() {
    assert_eq!(
        enumerate_mjpg_native_modes(&natives()),
        vec![
            mode(0, 640, 480),
            mode(2, 1920, 1080),
            mode(4, 640, 480),
            mode(5, 2592, 1944),
            mode(6, 480, 640),
        ]
    );
}

#[test]
fn resolutions_are_listed_once_and_the_largest_first() {
    let modes = enumerate_mjpg_native_modes(&natives());
    assert_eq!(
        modes_to_resolutions(&modes),
        vec![size(2592, 1944), size(1920, 1080), size(640, 480), size(480, 640)]
    );
    assert_eq!(modes_to_resolutions(&[]), vec![]);
    assert_eq!(
        modes_to_resolutions(&[mode(0, 1, 1), mode(1, u32::MAX, u32::MAX), mode(2, 65536, 65536)]),
        vec![size(u32::MAX, u32::MAX), size(65536, 65536), size(1, 1)]
    );
}

#[test]
fn the_preferred_resolution_is_selected() {
    let modes = enumerate_mjpg_native_modes(&natives());
    let select = |preferred, policy| select_mode_index(&modes, preferred, policy);
    assert_eq!(select(Some(size(640, 480)), SelectionPolicy::PreferMaximum), Some(0));
    assert_eq!(select(Some(size(640, 480)), SelectionPolicy::Prefer1080p), Some(0));
    assert_eq!(select(Some(size(1, 1)), SelectionPolicy::Prefer1080p), Some(2));
    assert_eq!(select(Some(size(1, 1)), SelectionPolicy::PreferMaximum), Some(5));
    assert_eq!(select(None, SelectionPolicy::Prefer1080p), Some(2));
    assert_eq!(select(None, SelectionPolicy::PreferMaximum), Some(5));
}

#[test]
fn of_equally_large_modes_the_last_is_selected() {
    let modes = [mode(3, 640, 480), mode(4, 480, 640), mode(5, 320, 240)];
    assert_eq!(select_mode_index(&modes, None, SelectionPolicy::Prefer1080p), Some(4));
    assert_eq!(select_mode_index(&[], None, SelectionPolicy::PreferMaximum), None);
}

#[test]
fn a_reader_needs_an_mjpg_mode() {
    assert_eq!(choose_mode(&natives(), None, SelectionPolicy::PreferMaximum), Ok(5));
    assert_eq!(
        choose_mode(&vec![native(false, 1, 1)], None, SelectionPolicy::PreferMaximum),
        Err(failure("no native MJPG mode found"))
    );
    assert_eq!(list_resolutions(&natives()).unwrap().len(), 4);
    assert_eq!(
        list_resolutions(&vec![native(false, 1, 1)]),
        Err(failure("camera exposes no native MJPG resolution"))
    );
}

#[test]
fn sources_are_named() {
    let named = |s: &str| SourceSlot::Source(Some(s.to_string()));
    let slots = vec![named("A"), SourceSlot::Empty, SourceSlot::Source(None), named("")];
    let names = vec!["A".to_string(), "Unknown Camera".to_string(), String::new()];
    assert_eq!(source_names(&slots), Ok(names.clone()));
    assert_eq!(enumerate_devices(&slots), Ok(names));
    let failed = vec![
        named("A"),
        SourceSlot::Failed("one".to_string()),
        SourceSlot::Failed("two".to_string()),
        named("B"),
    ];
    assert_eq!(source_names(&failed), Err("GetAllocatedString failed: one".to_string()));
    assert_eq!(enumerate_devices(&failed), Err(failure("GetAllocatedString failed: one")));
    assert_eq!(enumerate_devices(&vec![]), Ok(vec![]));
}

#[test]
fn media_foundation_cameras_are_known_by_their_places() {
    let devices = list_cameras(vec!["A".to_string(), "B".to_string()]);
    let device = |raw_id: &str, name: &str| CameraDevice {
        raw_id: raw_id.to_string(),
        name: name.to_string(),
    };
    assert_eq!(devices, vec![device("0", "A"), device("1", "B")]);
    for (i, device) in devices.iter().enumerate() {
        assert_eq!(activate_for_raw_id(&device.raw_id, devices.len()), Ok(i));
    }
    assert_eq!(
        activate_for_raw_id("2", 2),
        Err(CameraError::CameraNotFound("camera not found: mf:2".to_string()))
    );
    assert_eq!(
        activate_for_raw_id("two", 2),
        Err(CameraError::InvalidCameraId("invalid camera id: mf:two".to_string()))
    );
}

#[test]
fn failed_media_calls_have_their_titles() {
    for (call, title) in [
        (MediaCall::Initialize, "CoInitializeEx"),
        (MediaCall::Startup, "MFStartup"),
        (MediaCall::CreateAttributes, "MFCreateAttributes"),
        (MediaCall::SetSourceType, "SetGUID"),
        (MediaCall::EnumSources, "MFEnumDeviceSources"),
        (MediaCall::FriendlyName, "GetAllocatedString"),
        (MediaCall::Activate, "ActivateObject"),
        (MediaCall::CreateReader, "MFCreateSourceReaderFromMediaSource"),
        (MediaCall::NativeMode, "GetNativeMediaType(selected mode)"),
        (MediaCall::SelectNativeMode, "SetCurrentMediaType(native mode)"),
        (MediaCall::CreateMediaType, "MFCreateMediaType"),
        (MediaCall::SetMajorType, "SetGUID major type"),
        (MediaCall::SetSubtype, "SetGUID subtype MJPG"),
        (MediaCall::SelectMjpg, "SetCurrentMediaType(MJPG)"),
        (MediaCall::ReadSample, "ReadSample"),
        (MediaCall::ConvertBuffer, "ConvertToContiguousBuffer"),
        (MediaCall::LockBuffer, "buffer lock"),
    ] {
        assert_eq!(call.failed_text("x"), format!("{} failed: x", title));
        assert_eq!(call.failed("x"), failure(&format!("{} failed: x", title)));
    }
    assert_eq!(no_attributes(), "MFCreateAttributes returned null");
}

#[test]
fn a_media_foundation_session_is_opened_and_closed() {
    let mut backend = MediaFoundationBackend::new();
    assert_eq!(backend.backend_id(), "mf");
    assert_eq!(backend.connect(Ok(0), "0"), ConnectStep::StartWorker);
    backend.worker_started("0", 42);
    assert!(backend.is_connected("0"));
    assert_eq!(backend.get_preview_resolution("0"), Some(size(1920, 1080)));
    assert_eq!(backend.get_preview_resolution("1"), None);
    assert_eq!(backend.connect(Ok(0), "0"), ConnectStep::Finish(Ok(())));
    assert_eq!(
        backend.connect(Err(failure("x")), "0"),
        ConnectStep::Finish(Err(failure("x")))
    );
    assert_eq!(backend.disconnect("0"), Some(42));
    assert_eq!(backend.disconnect("0"), None);
    assert!(!backend.is_connected("0"));
}

#[test]
fn the_size_of_a_preview_is_set_and_read_back() {
    let mut backend = MediaFoundationBackend::new();
    backend.worker_started("0", 42);
    backend.worker_started("1", 43);
    let available = || Ok(vec![size(1920, 1080), size(640, 480)]);
    assert_eq!(backend.set_preview_resolution(available(), "0", size(640, 480)), Ok(()));
    assert_eq!(backend.get_preview_resolution("0"), Some(size(640, 480)));
    assert_eq!(backend.get_preview_resolution("1"), Some(size(1920, 1080)));
    assert_eq!(backend.capture_photo_jpeg("0", Some(size(640, 480))), Some(42));
    assert_eq!(backend.capture_photo_jpeg("0", Some(size(1920, 1080))), None);
    assert_eq!(backend.capture_photo_jpeg("0", None), None);
    assert_eq!(backend.capture_photo_jpeg("2", Some(size(640, 480))), None);
}

#[test]
fn the_size_of_a_preview_can_be_refused() {
    let mut backend = MediaFoundationBackend::new();
    backend.worker_started("0", 42);
    assert_eq!(
        backend.set_preview_resolution(Ok(vec![size(640, 480)]), "0", size(800, 600)),
        Err(failure("unsupported preview resolution: 800x600"))
    );
    assert_eq!(
        backend.set_preview_resolution(Ok(vec![size(640, 480)]), "1", size(640, 480)),
        Err(CameraError::CameraNotConnected("camera is not connected: mf:1".to_string()))
    );
    assert_eq!(
        backend.set_preview_resolution(Err(failure("x")), "0", size(640, 480)),
        Err(failure("x"))
    );
    assert_eq!(backend.get_preview_resolution("0"), Some(size(1920, 1080)));
}

#[test]
fn a_session_makes_a_reader_for_every_size() {
    let mut reader = PreviewReader::new();
    let full = Some(size(1920, 1080));
    assert_eq!(reader.next(None), PreviewStep::CreateReader(None));
    assert_eq!(reader.next(full), PreviewStep::CreateReader(full));
    assert_eq!(reader.reader_created(full, false), PreviewStep::Pause);
    assert_eq!(reader.next(full), PreviewStep::CreateReader(full));
    assert_eq!(reader.reader_created(full, true), PreviewStep::ReadFrame);
    assert_eq!(reader.next(full), PreviewStep::ReadFrame);
    let small = Some(size(640, 480));
    assert_eq!(reader.next(small), PreviewStep::CreateReader(small));
}

#[test]
fn a_session_keeps_the_last_frame_that_it_read() {
    let full = Some(size(1920, 1080));
    let turns = [
        (false, Ok(vec![1])),
        (true, Ok(vec![2])),
        (true, Err(failure("no"))),
        (true, Ok(vec![3])),
        (true, Err(failure("no"))),
    ];
    let mut reader = PreviewReader::new();
    let mut slot = Some(vec![0]);
    let mut slots = Vec::new();
    for (created, frame) in turns {
        let mut step = reader.next(full);
        if let PreviewStep::CreateReader(wanted) = step {
            step = reader.reader_created(wanted, created);
        }
        if step == PreviewStep::ReadFrame {
            slot = kept_frame(slot, frame);
        }
        slots.push(slot.clone().unwrap());
    }
    assert_eq!(slots, vec![vec![0], vec![2], vec![2], vec![3], vec![3]]);
}

#[test]
fn the_first_jpeg_sample_is_the_frame() {
    let jpeg = vec![0xFF, 0xD8, 1, 2, 3];
    let mut search = FrameSearch::new();
    assert_eq!(search.sample_read(SampleRead::Empty), FrameStep::ReadSample);
    for other in [vec![], vec![0xFF, 0xD8, 1, 2], vec![0xFF, 0xD9, 1, 2, 3], vec![0, 0xD8, 1, 2, 3]] {
        assert_eq!(search.sample_read(SampleRead::Data(other)), FrameStep::ReadSample);
    }
    assert_eq!(
        search.sample_read(SampleRead::Data(jpeg.clone())),
        FrameStep::Finish(Ok(jpeg))
    );
}

#[test]
fn ninety_samples_without_jpeg_end_a_search() {
    let mut search = FrameSearch::new();
    for _ in 0..89 {
        assert_eq!(search.sample_read(SampleRead::Data(vec![0; 9])), FrameStep::ReadSample);
    }
    assert_eq!(
        search.sample_read(SampleRead::Empty),
        FrameStep::Finish(Err(failure(
            "captured frame is not JPEG (camera may not support MJPG)"
        )))
    );
}

#[test]
fn a_failed_read_ends_a_search() {
    assert_eq!(
        FrameSearch::new().sample_read(SampleRead::Failed(MediaCall::LockBuffer, "x".to_string())),
        FrameStep::Finish(Err(failure("buffer lock failed: x")))
    );
}

#[test]
fn media_foundation_can_be_missing() {
    assert_eq!(
        unavailable(),
        CameraError::BackendUnavailable(
            "media foundation backend is only available on Windows".to_string()
        )
    );
    assert_eq!(sessions_lost(), failure("session lock poisoned"));
}

#[test]
fn every_listed_resolution_is_selected_where_it_is_preferred() {
    let modes = enumerate_mjpg_native_modes(&natives());
    for r in modes_to_resolutions(&modes) {
        for policy in [SelectionPolicy::Prefer1080p, SelectionPolicy::PreferMaximum] {
            let index = select_mode_index(&modes, Some(r), policy).unwrap();
            let selected = modes.iter().find(|m| m.index == index).unwrap();
            assert_eq!(size(selected.width, selected.height), r);
        }
    }
}
