use image::codecs::jpeg::JpegEncoder;
use image::{DynamicImage, ImageBuffer, Rgb};
use toucan_camera_server::camera::directshow::calls::{DirectShowCall, Fetch, FetchStatus};
use toucan_camera_server::camera::directshow::devices::{
    blank, camera_name, moniker_fetched, text_behind_last, trimmed, CameraList, MonikerStep,
};
use toucan_camera_server::camera::directshow::dib::{decode_dib, dib_to_jpeg, photo_encoded};
use toucan_camera_server::camera::directshow::graph::{
    image_words, photo_next, stream_begin, stream_next, GraphEvent, PhotoStep, StreamStep,
};
use toucan_camera_server::camera::directshow::{
    sessions_lost, unavailable, ConnectStep, DirectShowBackend,
};
use toucan_camera_server::camera::indexed::{camera_at, camera_index, kept_frame, FramePoll, PollStep};
use toucan_camera_server::camera::{CameraDevice, CameraError};

fn failure(message: &str) -> CameraError {
    CameraError::BackendFailure(message.to_string())
}

fn dib(width: i32, height: i32, bits: u16, pixels: &[u8]) -> Vec<u8> {
    let mut bytes = vec![0u8; 40];
    bytes[0..4].copy_from_slice(&40u32.to_le_bytes());
    bytes[4..8].copy_from_slice(&width.to_le_bytes());
    bytes[8..12].copy_from_slice(&height.to_le_bytes());
    bytes[14..16].copy_from_slice(&bits.to_le_bytes());
    bytes.extend_from_slice(pixels);
    bytes
}

fn rgb_of(bytes: &[u8]) -> (u32, u32, Vec<u8>) {
    let frame = decode_dib(bytes).ok().unwrap();
    (frame.width, frame.height, frame.rgb)
}

fn error_of(bytes: &[u8]) -> CameraError {
    decode_dib(bytes).err().unwrap()
}

// One pixel per row: three bytes and one byte that fills up the row.
const TWO_ROWS: [u8; 8] = [1, 2, 3, 0, 4, 5, 6, 0];

#[test]
fn a_bitmap_begins_with_its_last_row() {
    assert_eq!(rgb_of(&dib(1, 2, 24, &TWO_ROWS)), (1, 2, vec![6, 5, 4, 3, 2, 1]));
}

#[test]
fn a_negative_height_turns_a_bitmap_over() {
    assert_eq!(rgb_of(&dib(1, -2, 24, &TWO_ROWS)), (1, 2, vec![3, 2, 1, 6, 5, 4]));
    assert_eq!(rgb_of(&dib(-1, -2, 24, &TWO_ROWS)), (1, 2, vec![3, 2, 1, 6, 5, 4]));
}

#[test]
fn a_bitmap_can_have_four_bytes_per_pixel() {
    let pixels = [1, 2, 3, 255, 4, 5, 6, 255];
    assert_eq!(rgb_of(&dib(2, 1, 32, &pixels)), (2, 1, vec![3, 2, 1, 6, 5, 4]));
}

#[test]
fn a_longer_header_is_skipped() {
    let mut bytes = vec![0u8; 52];
    bytes[0..4].copy_from_slice(&52u32.to_le_bytes());
    bytes[4..8].copy_from_slice(&1i32.to_le_bytes());
    bytes[8..12].copy_from_slice(&1i32.to_le_bytes());
    bytes[14..16].copy_from_slice(&24u16.to_le_bytes());
    bytes.extend_from_slice(&[7, 8, 9, 0]);
    assert_eq!(rgb_of(&bytes), (1, 1, vec![9, 8, 7]));
}

#[test]
fn a_bitmap_that_cannot_be_read_is_refused() {
    assert_eq!(error_of(&[0; 39]), failure("directshow frame too small"));
    assert_eq!(error_of(&[0; 64]), failure("invalid DIB header in directshow frame"));
    assert_eq!(
        error_of(&dib(1, 1, 24, &[])),
        failure("invalid DIB header in directshow frame")
    );
    let mut compressed = dib(1, 1, 24, &[1, 2, 3, 0]);
    compressed[16] = 3;
    assert_eq!(error_of(&compressed), failure("unsupported DIB compression type: 3"));
    assert_eq!(
        error_of(&dib(1, 1, 16, &[1, 2, 3, 0])),
        failure("unsupported DIB pixel format: 16 bits")
    );
    assert_eq!(
        error_of(&dib(2, 2, 24, &TWO_ROWS)),
        failure("truncated DIB buffer returned by directshow")
    );
    assert_eq!(
        error_of(&dib(i32::MIN, i32::MIN, 32, &TWO_ROWS)),
        failure("truncated DIB buffer returned by directshow")
    );
}

#[test]
fn a_bitmap_becomes_a_jpeg_file() {
    let pixels: Vec<u8> = (0..8 * 4 * 4).map(|i| (i * 29 % 253) as u8).collect();
    let bytes = dib(8, 4, 32, &pixels);
    let (width, height, rgb) = rgb_of(&bytes);
    let image = ImageBuffer::<Rgb<u8>, Vec<u8>>::from_raw(width, height, rgb).unwrap();
    let mut expected = Vec::new();
    JpegEncoder::new_with_quality(&mut expected, 90)
        .encode_image(&DynamicImage::ImageRgb8(image))
        .unwrap();
    let file = dib_to_jpeg(&bytes).unwrap();
    assert_eq!(file, expected);
    let decoded = image::load_from_memory(&file).unwrap();
    assert_eq!((decoded.width(), decoded.height()), (8, 4));
    assert_eq!(dib_to_jpeg(&[]), Err(failure("directshow frame too small")));
}

#[test]
fn an_image_without_pixels_cannot_be_encoded() {
    match dib_to_jpeg(&dib(0, 5, 24, &[1])) {
        Err(CameraError::BackendFailure(message)) => {
            assert!(message.starts_with("jpeg encoding failed: "), "{}", message)
        }
        other => panic!("{:?}", other),
    }
}

#[test]
fn what_the_photo_encoder_answers_is_passed_on() {
    assert_eq!(photo_encoded(Some(Ok(vec![1]))), Ok(vec![1]));
    assert_eq!(
        photo_encoded(Some(Err("too wide".to_string()))),
        Err(failure("jpeg encoding failed: too wide"))
    );
    assert_eq!(photo_encoded(None), Err(failure("failed to decode directshow frame buffer")));
}

#[test]
fn white_space_is_what_std_takes_for_it() {
    for n in 0..=0x10FFFFu32 {
        if let Some(c) = char::from_u32(n) {
            let text = c.to_string();
            assert_eq!(blank(&text), text.trim().is_empty(), "U+{:X}", n);
        }
    }
    assert!(blank(""));
    assert!(blank(" \t\u{3000}"));
    assert!(!blank(" a "));
}

#[test]
fn names_are_cut_as_std_cuts_them() {
    for s in ["", "a", "a!b", "a!b!c", "!", "a!", "\0a\0", "\0\0", "a\0b", "x!\0y\0\0", "é!ü\0"] {
        assert_eq!(text_behind_last(s, '!'), s.split('!').next_back().unwrap(), "{:?}", s);
        assert_eq!(trimmed(s, '\0'), s.trim_matches('\0'), "{:?}", s);
    }
}

#[test]
fn a_camera_has_its_friendly_name() {
    let some = |s: &str| Some(s.to_string());
    assert_eq!(camera_name(0, some("@device:pnp:x!y"), "C920".to_string()), "C920");
    assert_eq!(camera_name(0, some("@device:pnp:x!y\0"), " \t".to_string()), "y");
    assert_eq!(camera_name(3, some("@device:pnp:x!\0"), String::new()), "DirectShow Camera 3");
    assert_eq!(camera_name(3, some(""), String::new()), "DirectShow Camera 3");
    assert_eq!(camera_name(12, None, String::new()), "dshow-device-12");
}

fn fetch(status: FetchStatus, fetched: u32, has_item: bool) -> Fetch {
    Fetch { status, fetched, has_item }
}

#[test]
fn a_list_of_cameras_ends_or_fails() {
    assert_eq!(moniker_fetched(&fetch(FetchStatus::Success, 1, true)), MonikerStep::ReadNames);
    assert_eq!(moniker_fetched(&fetch(FetchStatus::Success, 0, true)), MonikerStep::Finish);
    assert_eq!(moniker_fetched(&fetch(FetchStatus::Success, 1, false)), MonikerStep::Finish);
    assert_eq!(moniker_fetched(&fetch(FetchStatus::Exhausted, 1, true)), MonikerStep::Finish);
    assert_eq!(
        moniker_fetched(&fetch(FetchStatus::Failed("gone".to_string()), 0, false)),
        MonikerStep::Fail(failure("IEnumMoniker::Next failed: gone"))
    );
}

#[test]
fn cameras_are_listed_by_their_places() {
    let mut list = CameraList::new();
    assert_eq!(list.names_read(Ok(Some("a!b".to_string())), "One".to_string()), Ok(()));
    assert_eq!(
        list.names_read(Err("no".to_string()), "Lost".to_string()),
        Err(failure("IMoniker::GetDisplayName failed: no"))
    );
    assert_eq!(list.names_read(Ok(None), String::new()), Ok(()));
    assert_eq!(list.len(), 2);
    let device = |raw_id: &str, name: &str| CameraDevice {
        raw_id: raw_id.to_string(),
        name: name.to_string(),
    };
    assert_eq!(
        list.into_devices(),
        vec![device("0", "One"), device("1", "dshow-device-1")]
    );
    assert!(CameraList::new().into_devices().is_empty());
}

#[test]
fn cameras_are_found_by_their_places() {
    assert_eq!(camera_index("dshow", "4"), Ok(4));
    assert_eq!(camera_at("dshow", "4", 5), Ok(4));
    assert_eq!(
        camera_at("dshow", "5", 5),
        Err(CameraError::CameraNotFound("camera not found: dshow:5".to_string()))
    );
    assert_eq!(
        camera_at("dshow", "x", 5),
        Err(CameraError::InvalidCameraId("invalid camera id: dshow:x".to_string()))
    );
    assert_eq!(
        camera_index("dshow", ""),
        Err(CameraError::InvalidCameraId("invalid camera id: dshow:".to_string()))
    );
}

#[test]
fn failed_calls_have_their_titles() {
    for (call, title) in [
        (DirectShowCall::Initialize, "CoInitializeEx"),
        (DirectShowCall::CreateDeviceEnum, "CoCreateInstance(SystemDeviceEnum)"),
        (DirectShowCall::CreateClassEnumerator, "CreateClassEnumerator"),
        (DirectShowCall::NextMoniker, "IEnumMoniker::Next"),
        (DirectShowCall::DisplayName, "IMoniker::GetDisplayName"),
        (DirectShowCall::CreateGraph, "CoCreateInstance(FilterGraph)"),
        (DirectShowCall::AddSource, "AddSourceFilterForMoniker"),
        (DirectShowCall::EnumPins, "EnumPins"),
        (DirectShowCall::NextPin, "IEnumPins::Next"),
        (DirectShowCall::QueryDirection, "QueryDirection"),
        (DirectShowCall::Render, "graph render"),
        (DirectShowCall::MediaControl, "IMediaControl cast"),
        (DirectShowCall::Run, "graph run"),
        (DirectShowCall::BasicVideo, "IBasicVideo cast"),
        (DirectShowCall::ImageSize, "GetCurrentImage(size)"),
        (DirectShowCall::ImageData, "GetCurrentImage(data)"),
    ] {
        assert_eq!(call.failed("x"), failure(&format!("{} failed: x", title)));
    }
}

#[test]
fn a_photo_is_taken_step_by_step() {
    let input = || GraphEvent::PinFetched(fetch(FetchStatus::Success, 1, true));
    for (event, step) in [
        (GraphEvent::Created(Ok(())), PhotoStep::Call(DirectShowCall::AddSource)),
        (GraphEvent::SourceAdded(Ok(())), PhotoStep::Call(DirectShowCall::EnumPins)),
        (GraphEvent::PinsEnumerated(Ok(())), PhotoStep::Call(DirectShowCall::NextPin)),
        (input(), PhotoStep::Call(DirectShowCall::QueryDirection)),
        (GraphEvent::DirectionRead(Ok(false)), PhotoStep::Call(DirectShowCall::NextPin)),
        (input(), PhotoStep::Call(DirectShowCall::QueryDirection)),
        (GraphEvent::DirectionRead(Ok(true)), PhotoStep::Call(DirectShowCall::Render)),
        (GraphEvent::Rendered(Ok(())), PhotoStep::HideAndCall(DirectShowCall::MediaControl)),
        (GraphEvent::MediaControlCast(Ok(())), PhotoStep::Call(DirectShowCall::Run)),
        (GraphEvent::Ran(Ok(())), PhotoStep::HideWaitAndCall(DirectShowCall::BasicVideo)),
        (GraphEvent::BasicVideoCast(Ok(())), PhotoStep::Call(DirectShowCall::ImageSize)),
        (GraphEvent::SizeRead(Ok(41)), PhotoStep::ReadImage { words: 11 }),
        (GraphEvent::DataRead(Ok(vec![1])), PhotoStep::StopAndEncode),
    ] {
        assert_eq!(photo_next(&event), step);
    }
}

#[test]
fn a_photo_reports_the_call_that_failed() {
    let d = || "no".to_string();
    for (event, title) in [
        (GraphEvent::Created(Err(d())), "CoCreateInstance(FilterGraph)"),
        (GraphEvent::SourceAdded(Err(d())), "AddSourceFilterForMoniker"),
        (GraphEvent::PinsEnumerated(Err(d())), "EnumPins"),
        (
            GraphEvent::PinFetched(fetch(FetchStatus::Failed(d()), 1, false)),
            "IEnumPins::Next",
        ),
        (GraphEvent::DirectionRead(Err(d())), "QueryDirection"),
        (GraphEvent::Rendered(Err(d())), "graph render"),
        (GraphEvent::MediaControlCast(Err(d())), "IMediaControl cast"),
        (GraphEvent::Ran(Err(d())), "graph run"),
        (GraphEvent::BasicVideoCast(Err(d())), "IBasicVideo cast"),
        (GraphEvent::SizeRead(Err(d())), "GetCurrentImage(size)"),
        (GraphEvent::DataRead(Err(d())), "GetCurrentImage(data)"),
    ] {
        assert_eq!(
            photo_next(&event),
            PhotoStep::Fail(failure(&format!("{} failed: no", title)))
        );
    }
}

#[test]
fn a_photo_needs_an_output_pin_and_a_frame() {
    for event in [
        GraphEvent::PinFetched(fetch(FetchStatus::Exhausted, 1, true)),
        GraphEvent::PinFetched(fetch(FetchStatus::Success, 0, false)),
        GraphEvent::PinFetched(fetch(FetchStatus::Failed("x".to_string()), 0, false)),
    ] {
        assert_eq!(
            photo_next(&event),
            PhotoStep::Fail(failure("no output pin found for directshow device"))
        );
    }
    assert_eq!(
        photo_next(&GraphEvent::PinFetched(fetch(FetchStatus::Success, 1, false))),
        PhotoStep::Call(DirectShowCall::NextPin)
    );
    for size in [0, -4] {
        assert_eq!(
            photo_next(&GraphEvent::SizeRead(Ok(size))),
            PhotoStep::StopAndFail(failure("directshow returned empty frame"))
        );
    }
}

#[test]
fn an_image_is_read_in_words() {
    assert_eq!(image_words(1), 1);
    assert_eq!(image_words(4), 1);
    assert_eq!(image_words(5), 2);
    assert_eq!(image_words(i32::MAX), 0x2000_0000);
}

#[test]
fn a_session_captures_until_it_is_stopped() {
    for (event, step) in [
        (GraphEvent::Created(Ok(())), StreamStep::Call(DirectShowCall::AddSource)),
        (GraphEvent::SourceAdded(Ok(())), StreamStep::Call(DirectShowCall::EnumPins)),
        (GraphEvent::PinsEnumerated(Ok(())), StreamStep::Call(DirectShowCall::NextPin)),
        (
            GraphEvent::PinFetched(fetch(FetchStatus::Success, 1, true)),
            StreamStep::Call(DirectShowCall::QueryDirection),
        ),
        (
            GraphEvent::PinFetched(fetch(FetchStatus::Success, 1, false)),
            StreamStep::Call(DirectShowCall::NextPin),
        ),
        (GraphEvent::DirectionRead(Err("x".to_string())), StreamStep::Call(DirectShowCall::NextPin)),
        (GraphEvent::DirectionRead(Ok(false)), StreamStep::Call(DirectShowCall::NextPin)),
        (GraphEvent::DirectionRead(Ok(true)), StreamStep::Call(DirectShowCall::Render)),
        (GraphEvent::Rendered(Ok(())), StreamStep::HideAndCall(DirectShowCall::MediaControl)),
        (GraphEvent::MediaControlCast(Ok(())), StreamStep::Call(DirectShowCall::Run)),
        (GraphEvent::Ran(Ok(())), StreamStep::HideAndCheckStop),
        (GraphEvent::StopChecked(false), StreamStep::HideAndCall(DirectShowCall::BasicVideo)),
        (GraphEvent::BasicVideoCast(Ok(())), StreamStep::Call(DirectShowCall::ImageSize)),
        (GraphEvent::SizeRead(Ok(8)), StreamStep::ReadImage { words: 2 }),
        (GraphEvent::DataRead(Ok(vec![1])), StreamStep::Encode),
        (GraphEvent::SizeRead(Ok(0)), StreamStep::PauseAndCheckStop),
        (GraphEvent::SizeRead(Err("x".to_string())), StreamStep::PauseAndCheckStop),
        (GraphEvent::DataRead(Err("x".to_string())), StreamStep::PauseAndCheckStop),
        (GraphEvent::StopChecked(true), StreamStep::StopAndEnd),
        (GraphEvent::BasicVideoCast(Err("x".to_string())), StreamStep::StopAndEnd),
    ] {
        assert_eq!(stream_next(&event), step, "{:?}", event);
    }
}

#[test]
fn a_session_whose_graph_does_not_run_just_ends() {
    let d = || "no".to_string();
    for event in [
        GraphEvent::Created(Err(d())),
        GraphEvent::SourceAdded(Err(d())),
        GraphEvent::PinsEnumerated(Err(d())),
        GraphEvent::PinFetched(fetch(FetchStatus::Exhausted, 0, false)),
        GraphEvent::PinFetched(fetch(FetchStatus::Success, 0, true)),
        GraphEvent::PinFetched(fetch(FetchStatus::Failed(d()), 1, true)),
        GraphEvent::Rendered(Err(d())),
        GraphEvent::MediaControlCast(Err(d())),
        GraphEvent::Ran(Err(d())),
    ] {
        assert_eq!(stream_next(&event), StreamStep::End, "{:?}", event);
    }
}

fn listed(ids: &[&str]) -> Result<Vec<CameraDevice>, CameraError> {
    Ok(ids
        .iter()
        .map(|id| CameraDevice { raw_id: id.to_string(), name: "x".to_string() })
        .collect())
}

#[test]
fn a_directshow_session_is_opened_and_closed() {
    let mut backend = DirectShowBackend::new();
    assert_eq!(backend.backend_id(), "dshow");
    assert_eq!(backend.connect(listed(&["0", "1"]), "1"), ConnectStep::StartWorker);
    backend.worker_started("1", 42);
    assert!(backend.is_connected("1"));
    assert_eq!(backend.connect(listed(&["0", "1"]), "1"), ConnectStep::Finish(Ok(())));
    assert_eq!(backend.capture_photo_jpeg("1"), Some(42));
    assert_eq!(backend.capture_photo_jpeg("0"), None);
    assert_eq!(backend.disconnect("1"), Some(42));
    assert_eq!(backend.disconnect("1"), None);
    assert!(!backend.is_connected("1"));
}

#[test]
fn a_directshow_camera_has_to_be_there() {
    let mut backend = DirectShowBackend::new();
    backend.worker_started("1", 42);
    assert_eq!(
        backend.connect(listed(&["0"]), "1"),
        ConnectStep::Finish(Err(CameraError::CameraNotFound(
            "camera not found: dshow:1".to_string()
        )))
    );
    assert_eq!(
        backend.connect(Err(failure("x")), "1"),
        ConnectStep::Finish(Err(failure("x")))
    );
    assert!(backend.is_connected("1"));
}

#[test]
fn a_session_is_asked_for_its_frame_twenty_times() {
    let mut poll = FramePoll::new();
    for _ in 0..19 {
        assert_eq!(poll.polled(None), PollStep::WaitAndPoll);
    }
    assert_eq!(poll.polled(None), PollStep::WaitAndCapture);
    let mut poll = FramePoll::new();
    assert_eq!(poll.polled(None), PollStep::WaitAndPoll);
    assert_eq!(poll.polled(Some(vec![1])), PollStep::Frame(vec![1]));
}

#[test]
fn directshow_can_be_missing() {
    assert_eq!(
        unavailable(),
        CameraError::BackendUnavailable(
            "directshow backend is only available on Windows".to_string()
        )
    );
    assert_eq!(sessions_lost(), failure("session lock poisoned"));
}

#[test]
fn a_session_stops_its_graph_exactly_where_it_ran() {
    let before_it_runs = || {
        vec![
            GraphEvent::Created(Ok(())),
            GraphEvent::SourceAdded(Ok(())),
            GraphEvent::PinsEnumerated(Ok(())),
            GraphEvent::PinFetched(fetch(FetchStatus::Success, 1, true)),
            GraphEvent::DirectionRead(Ok(true)),
            GraphEvent::Rendered(Ok(())),
            GraphEvent::MediaControlCast(Ok(())),
        ]
    };
    let last_step = |events: &[GraphEvent]| {
        for event in &events[..events.len() - 1] {
            let step = stream_next(event);
            assert!(step != StreamStep::End && step != StreamStep::StopAndEnd);
        }
        stream_next(events.last().unwrap())
    };
    let mut events = before_it_runs();
    events.push(GraphEvent::Ran(Err("no".to_string())));
    assert_eq!(last_step(&events), StreamStep::End);
    let mut events = before_it_runs();
    events.push(GraphEvent::Ran(Ok(())));
    events.push(GraphEvent::StopChecked(false));
    events.push(GraphEvent::BasicVideoCast(Ok(())));
    events.push(GraphEvent::SizeRead(Ok(4)));
    events.push(GraphEvent::DataRead(Ok(vec![1])));
    events.push(GraphEvent::StopChecked(true));
    assert_eq!(last_step(&events), StreamStep::StopAndEnd);
}

#[test]
fn a_session_begins_where_its_camera_is_found() {
    assert_eq!(stream_begin(&Ok(0)), StreamStep::Call(DirectShowCall::CreateGraph));
    assert_eq!(stream_begin(&Err(failure("no"))), StreamStep::End);
}

#[test]
fn a_session_keeps_the_last_frame_that_it_could_encode() {
    let good = dib(1, 1, 24, &[10, 20, 30, 0]);
    let other = dib(1, 1, 24, &[200, 20, 30, 0]);
    let events = [
        GraphEvent::DataRead(Ok(good)),
        GraphEvent::DataRead(Ok(other.clone())),
        GraphEvent::DataRead(Err("no".to_string())),
        GraphEvent::DataRead(Ok(vec![1])),
        GraphEvent::SizeRead(Err("no".to_string())),
    ];
    let mut slot = None;
    for event in &events {
        let step = stream_next(event);
        if let GraphEvent::DataRead(Ok(bitmap)) = event {
            assert_eq!(step, StreamStep::Encode);
            slot = kept_frame(slot, dib_to_jpeg(bitmap));
        }
    }
    assert_eq!(slot, Some(dib_to_jpeg(&other).unwrap()));
    assert_eq!(kept_frame(None, dib_to_jpeg(&[1])), None);
    assert_eq!(kept_frame(Some(vec![1, 2]), Err(failure("no"))), Some(vec![1, 2]));
    assert_eq!(kept_frame(Some(vec![1, 2]), Ok(vec![3])), Some(vec![3]));
}
