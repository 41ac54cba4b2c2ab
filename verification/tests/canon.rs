use toucan_camera_server::backends::canon::{
    camera_count, camera_found, checked, find_camera, live_view_next, offered, parameter_of, properties,
    session_opened, CameraSlot, CanonBackend, CanonProperty, ConnectStep, ListPurpose,
    LiveViewCall, LiveViewStep, PropertyReading,
};
use toucan_camera_server::camera::{CameraError, DeviceId};

fn slot(camera: u64, port: &str, description: &str) -> CameraSlot {
    let buffer = |s: &str| {
        let mut bytes = s.as_bytes().to_vec();
        bytes.resize(256, 0);
        bytes
    };
    CameraSlot::Described { camera, port: buffer(port), description: buffer(description) }
}

fn started() -> CanonBackend {
    CanonBackend::new(Some(0)).ok().unwrap()
}

fn connected(device_id: &str, camera: u64) -> CanonBackend {
    let mut backend = started();
    backend.live_view_enabled(device_id, camera, 0);
    backend
}

fn reading(codes: &[i32], current: i32) -> PropertyReading {
    PropertyReading {
        description_status: 0,
        access: 1,
        num_elements: codes.len() as i32,
        codes: codes.to_vec(),
        current_status: 0,
        current_code: current,
    }
}

#[test]
fn a_backend_starts_with_its_sdk() {
    assert!(CanonBackend::new(Some(0)).is_ok());
    assert_eq!(CanonBackend::new(Some(0x21)).err(), Some(CameraError::SdkError(0x21)));
    assert_eq!(CanonBackend::new(None).err(), Some(CameraError::SdkError(0xFFFF_FFFF)));
    assert_eq!(started().backend_id(), "canon");
}

#[test]
fn a_status_other_than_zero_is_an_error() {
    assert_eq!(checked(0), Ok(()));
    assert_eq!(checked(0x81), Err(CameraError::SdkError(0x81)));
}

#[test]
fn described_cameras_are_listed() {
    let backend = connected("USB:0,1,0", 11);
    let slots = vec![
        CameraSlot::Missing,
        slot(11, "USB:0,1,0", "Canon EOS R5"),
        CameraSlot::Unknown(12),
        slot(13, "USB:0,1,1", "Canon EOS 90D"),
    ];
    let devices = backend.list_devices(Ok(slots)).unwrap();
    assert_eq!(devices.len(), 2);
    assert_eq!(devices[0].id, "Y2Fub246VVNCOjAsMSww");
    assert_eq!(devices[0].name, "Canon EOS R5");
    assert!(devices[0].connected);
    assert_eq!(devices[1].id, DeviceId::new("canon", "USB:0,1,1").encode());
    assert_eq!(devices[1].name, "Canon EOS 90D");
    assert!(!devices[1].connected);
}

#[test]
fn a_list_that_cannot_be_read_is_an_error() {
    assert_eq!(
        started().list_devices(Err(CameraError::SdkError(2))),
        Err(CameraError::SdkError(2))
    );
    assert_eq!(started().list_devices(Ok(vec![])), Ok(vec![]));
}

#[test]
fn a_search_keeps_one_camera_and_releases_the_others() {
    let slots = vec![
        slot(1, "USB:0,1,0", "A"),
        CameraSlot::Unknown(2),
        CameraSlot::Missing,
        slot(3, "USB:0,1,1", "B"),
        slot(4, "USB:0,1,2", "C"),
    ];
    let search = find_camera(&slots, "USB:0,1,1");
    assert_eq!(search.found, Ok(3));
    assert_eq!(search.release, vec![1, 2, 4]);
    let search = find_camera(&slots, "USB:9");
    assert_eq!(search.found, Err(CameraError::DeviceNotFound("USB:9".to_string())));
    assert_eq!(search.release, vec![1, 2, 3, 4]);
}

#[test]
fn of_two_cameras_on_a_port_the_last_is_found() {
    let slots = vec![slot(1, "P", "A"), slot(2, "P", "B")];
    let search = find_camera(&slots, "P");
    assert_eq!(search.found, Ok(2));
    assert!(search.release.is_empty());
}

#[test]
fn a_session_is_opened_step_by_step() {
    let mut backend = started();
    assert_eq!(backend.connect("P"), ConnectStep::FindCamera);
    assert_eq!(camera_found(Ok(5)), ConnectStep::OpenSession(5));
    assert_eq!(
        session_opened(5, 0),
        ConnectStep::SetProperty { camera: 5, property: 0x500, value: 2 }
    );
    assert_eq!(
        backend.live_view_enabled("P", 5, 0),
        ConnectStep::Finish { close: None, release: None, result: Ok(()) }
    );
    assert!(backend.is_connected("P"));
    assert_eq!(backend.session("P"), Ok(5));
}

#[test]
fn connecting_a_connected_camera_does_nothing() {
    let backend = connected("P", 5);
    assert_eq!(
        backend.connect("P"),
        ConnectStep::Finish { close: None, release: None, result: Ok(()) }
    );
    assert_eq!(backend.session("P"), Ok(5));
}

#[test]
fn a_session_that_fails_to_open_releases_its_camera() {
    let mut backend = started();
    assert_eq!(
        camera_found(Err(CameraError::DeviceNotFound("P".to_string()))),
        ConnectStep::Finish {
            close: None,
            release: None,
            result: Err(CameraError::DeviceNotFound("P".to_string())),
        }
    );
    assert_eq!(
        session_opened(5, 0x2003),
        ConnectStep::Finish {
            close: None,
            release: Some(5),
            result: Err(CameraError::SdkError(0x2003)),
        }
    );
    assert_eq!(
        backend.live_view_enabled("P", 5, 0x81),
        ConnectStep::Finish {
            close: Some(5),
            release: Some(5),
            result: Err(CameraError::SdkError(0x81)),
        }
    );
    assert!(!backend.is_connected("P"));
}

#[test]
fn disconnecting_undoes_connecting() {
    let mut backend = connected("P", 5);
    backend.live_view_enabled("Q", 6, 0);
    assert_eq!(backend.disconnect("P"), Ok(5));
    assert!(!backend.is_connected("P"));
    assert_eq!(backend.session("Q"), Ok(6));
    assert_eq!(backend.disconnect("P"), Err(CameraError::DeviceNotFound("P".to_string())));
    assert_eq!(backend.session("P"), Err(CameraError::NotConnected));
}

#[test]
fn shutting_down_hands_out_every_session() {
    let mut backend = connected("P", 5);
    backend.live_view_enabled("Q", 6, 0);
    let mut open = backend.shut_down();
    open.sort();
    assert_eq!(open, vec![("P".to_string(), 5), ("Q".to_string(), 6)]);
}

#[test]
fn a_frame_is_downloaded_and_what_was_created_is_released() {
    assert_eq!(
        live_view_next(LiveViewCall::CreateStream, 0),
        LiveViewStep::Call(LiveViewCall::CreateImage)
    );
    assert_eq!(
        live_view_next(LiveViewCall::CreateImage, 0),
        LiveViewStep::Call(LiveViewCall::Download)
    );
    assert_eq!(live_view_next(LiveViewCall::Download, 0), LiveViewStep::CopyFrame);
    for (call, release_image, release_stream) in [
        (LiveViewCall::CreateStream, false, false),
        (LiveViewCall::CreateImage, false, true),
        (LiveViewCall::Download, true, true),
    ] {
        assert_eq!(
            live_view_next(call, 0xA102),
            LiveViewStep::Fail {
                release_image,
                release_stream,
                error: CameraError::SdkError(0xA102),
            }
        );
    }
}

#[test]
fn the_properties_are_listed_in_their_order() {
    let names: Vec<(&str, u32)> = properties().iter().map(|p| (p.name(), p.id())).collect();
    assert_eq!(
        names,
        vec![
            ("aperture", 0x401),
            ("shutter_speed", 0x400),
            ("iso", 0x402),
            ("white_balance", 0x106),
            ("color_temperature", 0x107),
            ("metering_mode", 0x413),
            ("af_mode", 0x304),
            ("drive_mode", 0x224),
            ("exposure_compensation", 0x416),
        ]
    );
}

#[test]
fn a_property_is_offered_where_it_can_be_set() {
    assert!(offered(0, 1, 3));
    assert!(!offered(0x50, 1, 3));
    assert!(!offered(0, 0, 3));
    assert!(!offered(0, 1, 0));
    assert!(!offered(0, 1, -1));
}

#[test]
fn a_property_becomes_a_discrete_parameter() {
    let parameter = parameter_of(CanonProperty::Aperture, &reading(&[0x28, 0x30, 0x99], 0x30));
    assert_eq!(parameter.kind, "aperture");
    assert_eq!(parameter.current, "f/5.6");
    let options: Vec<(&str, i32)> =
        parameter.options.iter().map(|o| (o.label.as_str(), o.value)).collect();
    assert_eq!(options, vec![("f/4", 0x28), ("f/5.6", 0x30), ("0x99", 0x99)]);
    assert_eq!((parameter.min, parameter.max, parameter.step), (None, None, None));
}

#[test]
fn a_current_code_that_cannot_be_read_is_unknown() {
    let mut unread = reading(&[0x48], 0x48);
    unread.current_status = 0x50;
    let parameter = parameter_of(CanonProperty::Iso, &unread);
    assert_eq!(parameter.current, "Unknown");
    assert_eq!(parameter.options.len(), 1);
}

#[test]
fn only_offered_properties_become_parameters() {
    let backend = connected("P", 5);
    let mut readings: Vec<PropertyReading> = (0..9).map(|_| reading(&[], 0)).collect();
    readings[2] = reading(&[0x48, 0x58], 0x58);
    readings[8] = reading(&[0, 3, -3], -3);
    readings[8].num_elements = 2;
    let parameters = backend.get_parameters("P", &readings).unwrap();
    assert_eq!(parameters.len(), 2);
    assert_eq!(parameters[0].kind, "iso");
    assert_eq!(parameters[0].current, "ISO 400");
    assert_eq!(parameters[1].kind, "exposure_compensation");
    assert_eq!(parameters[1].current, "-⅓");
    assert_eq!(parameters[1].options.len(), 2);
    assert_eq!(backend.get_parameters("Q", &readings), Err(CameraError::NotConnected));
}

#[test]
fn canon_parameters_cannot_be_set() {
    assert_eq!(
        started().set_parameter("P", "iso", 0x48),
        Err(CameraError::NotSupported)
    );
}

#[test]
fn a_failed_count_ends_a_listing_and_no_search() {
    assert_eq!(camera_count(0, 3, ListPurpose::Listing), Ok(3));
    assert_eq!(camera_count(0, 3, ListPurpose::Searching), Ok(3));
    assert_eq!(camera_count(0x80, 0, ListPurpose::Listing), Err(CameraError::SdkError(0x80)));
    assert_eq!(camera_count(0x80, 0, ListPurpose::Searching), Ok(0));
}
