use toucan_camera_server::camera::media_foundation::calls::{MediaCall, SourceSlot};
use toucan_camera_server::camera::media_foundation::frames::SampleRead;
use toucan_camera_server::native::{
    capture_photo_jpeg, list_cameras, unsupported, CameraInfo, FrameSearch, FrameStep,
};

fn sources() -> Vec<SourceSlot> {
    vec![
        SourceSlot::Source(Some("A".to_string())),
        SourceSlot::Empty,
        SourceSlot::Source(None),
    ]
}

#[test]
fn native_cameras_are_listed() {
    let camera = |id: &str, name: &str| CameraInfo { id: id.to_string(), name: name.to_string() };
    assert_eq!(
        list_cameras(&sources()),
        Ok(vec![camera("0", "A"), camera("1", "Unknown Camera")])
    );
    assert_eq!(list_cameras(&vec![]), Ok(vec![]));
    assert_eq!(
        list_cameras(&vec![SourceSlot::Failed("x".to_string())]),
        Err("GetAllocatedString failed: x".to_string())
    );
}

#[test]
fn a_listed_camera_is_photographed() {
    for (i, camera) in list_cameras(&sources()).unwrap().iter().enumerate() {
        assert_eq!(capture_photo_jpeg(&sources(), &camera.id), Ok(i));
    }
    assert_eq!(capture_photo_jpeg(&sources(), "2"), Err("camera not found: 2".to_string()));
    assert_eq!(capture_photo_jpeg(&sources(), "A"), Err("invalid camera id: A".to_string()));
    assert_eq!(
        capture_photo_jpeg(&vec![SourceSlot::Failed("x".to_string())], "A"),
        Err("GetAllocatedString failed: x".to_string())
    );
}

#[test]
fn the_first_native_sample_has_to_be_jpeg() {
    let mut search = FrameSearch::new();
    assert_eq!(search.sample_read(SampleRead::Empty), FrameStep::ReadSample);
    let jpeg = vec![0xFF, 0xD8, 0, 0, 0];
    assert_eq!(
        search.sample_read(SampleRead::Data(jpeg.clone())),
        FrameStep::Finish(Ok(jpeg))
    );
    assert_eq!(
        FrameSearch::new().sample_read(SampleRead::Data(vec![0xFF, 0xD8, 0, 0])),
        FrameStep::Finish(Err(
            "captured frame is not JPEG (camera may not support MJPG)".to_string()
        ))
    );
    assert_eq!(
        FrameSearch::new().sample_read(SampleRead::Failed(MediaCall::ReadSample, "x".to_string())),
        FrameStep::Finish(Err("ReadSample failed: x".to_string()))
    );
}

#[test]
fn sixty_reads_without_a_sample_end_a_native_photo() {
    let mut search = FrameSearch::new();
    for _ in 0..59 {
        assert_eq!(search.sample_read(SampleRead::Empty), FrameStep::ReadSample);
    }
    assert_eq!(
        search.sample_read(SampleRead::Empty),
        FrameStep::Finish(Err("no video frame available from camera".to_string()))
    );
}

#[test]
fn native_cameras_can_be_unsupported() {
    let message = "native camera bindings are currently only implemented on Windows".to_string();
    assert_eq!(unsupported::list_cameras(), Err(message.clone()));
    assert_eq!(unsupported::capture_photo_jpeg("0"), Err(message));
}
