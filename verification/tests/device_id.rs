use toucan_camera_server::camera::{CameraError, DeviceId};

fn decoded(encoded: &str) -> Result<(String, String), CameraError> {
    DeviceId::decode(encoded).map(|id| (id.backend, id.native_id))
}

#[test]
fn a_canon_port_is_encoded() {
    assert_eq!(DeviceId::new("canon", "USB:0,1,0").encode(), "Y2Fub246VVNCOjAsMSww");
    assert_eq!(DeviceId::new("canon", "").encode(), "Y2Fub246");
}

#[test]
fn text_beyond_ascii_is_encoded_by_its_bytes() {
    assert_eq!(DeviceId::new("é", "ü").encode(), "w6k6w7w");
    assert_eq!(decoded("w6k6w7w"), Ok(("é".to_string(), "ü".to_string())));
}

#[test]
fn an_encoded_identifier_is_decoded() {
    for (backend, native_id) in [
        ("canon", "USB:0,1,0"),
        ("canon", ""),
        ("", ""),
        ("webcam-windows", "\\\\?\\usb#vid_046d&pid_0825"),
        ("avfoundation", "0x14100000046d0825"),
        ("dshow", "12"),
    ] {
        let encoded = DeviceId::new(backend, native_id).encode();
        assert_eq!(decoded(&encoded), Ok((backend.to_string(), native_id.to_string())));
    }
}

#[test]
fn the_backend_ends_at_the_first_colon() {
    let encoded = DeviceId::new("a:b", "c").encode();
    assert_eq!(encoded, "YTpiOmM");
    assert_eq!(decoded(&encoded), Ok(("a".to_string(), "b:c".to_string())));
}

#[test]
fn different_devices_have_different_identifiers() {
    let a = DeviceId::new("canon", "USB:0,1,0").encode();
    let b = DeviceId::new("canon", "USB:0,1,1").encode();
    let c = DeviceId::new("avfoundation", "USB:0,1,0").encode();
    assert_ne!(a, b);
    assert_ne!(a, c);
    assert_ne!(b, c);
}

#[test]
fn identifiers_are_url_safe() {
    for n in 0..=255u32 {
        let native: String = [char::from_u32(n).unwrap(), char::from_u32(n + 0x3f00).unwrap()]
            .iter()
            .collect();
        let encoded = DeviceId::new("x", &native).encode();
        assert!(encoded.chars().all(|c| c.is_ascii_alphanumeric() || c == '-' || c == '_'));
    }
}

#[test]
fn a_text_that_is_no_base64_is_refused() {
    for bad in ["*", "a", "Y2Fub24", "Y2Fub246=", "Y2Fub246VVNC+", "Y2Fub246VVNC/w", "Y2F ub24"] {
        assert_eq!(decoded(bad), Err(CameraError::InvalidDeviceId), "{}", bad);
    }
}

#[test]
fn padding_and_stray_bits_are_refused() {
    // "YTo" stands for "a:"; "YTp" has a bit behind its last byte.
    assert_eq!(decoded("YTo"), Ok(("a".to_string(), String::new())));
    assert_eq!(decoded("YTo="), Err(CameraError::InvalidDeviceId));
    assert_eq!(decoded("YTp"), Err(CameraError::InvalidDeviceId));
}

#[test]
fn bytes_that_are_no_text_are_refused() {
    assert_eq!(decoded("__46eA"), Err(CameraError::InvalidDeviceId));
}

#[test]
fn an_identifier_without_a_colon_is_refused() {
    assert_eq!(decoded("bm9jb2xvbg"), Err(CameraError::InvalidDeviceId));
    assert_eq!(decoded(""), Err(CameraError::InvalidDeviceId));
}
