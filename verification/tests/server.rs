use toucan_camera_server::camera::{CameraError, DeviceId};
use toucan_camera_server::server::{
    chosen_token, health, listening_line, mjpeg_part, refusal, route, token_argument,
};

fn args(list: &[&str]) -> Vec<String> {
    list.iter().map(|s| s.to_string()).collect()
}

#[test]
fn a_request_with_the_token_is_let_in() {
    assert_eq!(refusal("secret", Some("Bearer secret"), None), None);
    assert_eq!(refusal("secret", None, Some("secret")), None);
    assert_eq!(refusal("secret", Some("Bearer other"), Some("secret")), None);
    assert_eq!(refusal("secret", Some("Bearer secret"), Some("other")), None);
}

#[test]
fn a_request_without_the_token_is_forbidden() {
    assert_eq!(refusal("secret", None, None), Some(403));
    assert_eq!(refusal("secret", Some("Bearer other"), Some("other")), Some(403));
    assert_eq!(refusal("secret", Some("secret"), None), Some(403));
    assert_eq!(refusal("secret", Some("bearer secret"), None), Some(403));
    assert_eq!(refusal("secret", Some("Bearer secret "), None), Some(403));
    assert_eq!(refusal("secret", Some("Bearer"), Some("")), Some(403));
    assert_eq!(refusal("secret", None, Some("Secret")), Some(403));
}

#[test]
fn a_token_can_be_given_on_the_command_line() {
    let line = args(&["./toucan-camera-server", "--token", "my-secret-token"]);
    assert_eq!(token_argument(&line), Some("my-secret-token".to_string()));
    assert_eq!(chosen_token(&line, "generated".to_string()), "my-secret-token");
    let line = args(&["./toucan-camera-server"]);
    assert_eq!(token_argument(&line), None);
    assert_eq!(chosen_token(&line, "generated".to_string()), "generated");
    assert_eq!(token_argument(&args(&["x", "--token"])), None);
    assert_eq!(token_argument(&args(&["--token", "a", "--token", "b"])), Some("a".to_string()));
}

#[test]
fn the_url_with_the_token_is_printed() {
    assert_eq!(
        listening_line("127.0.0.1:8080", "my-secret-token"),
        "Listening on http://127.0.0.1:8080/?token=my-secret-token"
    );
}

#[test]
fn the_server_is_healthy() {
    let check = health("0.1.0");
    assert_eq!(check.status, "ok");
    assert_eq!(check.service, "bird-camera-server");
    assert_eq!(check.version, "0.1.0");
}

#[test]
fn a_listed_identifier_leads_to_its_backend() {
    let backends = args(&["canon", "webcam-windows"]);
    for (i, backend) in backends.iter().enumerate() {
        let encoded = DeviceId::new(backend, "USB:0,1,0").encode();
        let found = route(&backends, &encoded).unwrap();
        assert_eq!((found.backend, found.native_id.as_str()), (i, "USB:0,1,0"));
    }
}

#[test]
fn an_identifier_of_no_backend_is_not_found() {
    let backends = args(&["canon"]);
    let encoded = DeviceId::new("nikon", "1").encode();
    assert_eq!(route(&backends, &encoded), Err(CameraError::DeviceNotFound("1".to_string())));
    assert_eq!(route(&backends, "*"), Err(CameraError::InvalidDeviceId));
    assert_eq!(route(&vec![], &encoded), Err(CameraError::DeviceNotFound("1".to_string())));
}

#[test]
fn a_frame_is_framed_for_the_stream() {
    let mut expected = b"--frame\r\nContent-Type: image/jpeg\r\nContent-Length: 12\r\n\r\n".to_vec();
    expected.extend_from_slice(&[7; 12]);
    expected.extend_from_slice(b"\r\n");
    assert_eq!(mjpeg_part(&[7; 12]), expected);
    assert_eq!(
        mjpeg_part(&[]),
        b"--frame\r\nContent-Type: image/jpeg\r\nContent-Length: 0\r\n\r\n\r\n".to_vec()
    );
}
