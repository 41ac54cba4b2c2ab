use image::{DynamicImage, ImageBuffer, ImageFormat, Rgb};
use toucan_camera_server::backends::webcam_windows::formats::{
    enumerate_video_formats, frame_size, select_best_format_index, NativeMediaType, Subtype,
    VideoFormatInfo,
};
use toucan_camera_server::backends::webcam_windows::parameters::{
    cc_prop, controls, mode_value, offered, set_auto_cc, set_auto_vpa, set_parameter_step, vpa_prop,
    ControlInterface, ControlRange, ControlReading, ControlValue, Interfaces, ParameterType,
    SetStep, WebcamParameter, WebcamReadings, FLAGS_AUTO, FLAGS_MANUAL,
};
use toucan_camera_server::backends::webcam_windows::yuyv::{
    blue_of, frame_encoded, green_of, red_of, yuyv_to_jpeg, yuyv_to_rgb,
};
use toucan_camera_server::backends::webcam_windows::{
    choose_format, find_activate, win_err, ConnectStep, FrameSearch, FrameStep, SampleRead,
    WebcamSource, WebcamWindowsBackend,
};
use toucan_camera_server::camera::{CameraError, DeviceId};

fn packed(high: u32, low: u32) -> Option<u64> {
    Some(((high as u64) << 32) | low as u64)
}

fn native(subtype: Subtype, width: u32, height: u32, num: u32, den: u32) -> NativeMediaType {
    NativeMediaType { subtype, frame_size: packed(width, height), frame_rate: packed(num, den) }
}

fn format(is_mjpeg: bool, width: u32, height: u32, fps_num: u32, fps_den: u32) -> VideoFormatInfo {
    VideoFormatInfo { media_type: 0, is_mjpeg, width, height, fps_num, fps_den }
}

fn all_interfaces() -> Interfaces {
    Interfaces { video_proc_amp: true, camera_control: true, ks_control: true }
}

fn no_interfaces() -> Interfaces {
    Interfaces { video_proc_amp: false, camera_control: false, ks_control: false }
}

fn backend_with(id: &str, source: u64, natives: Vec<NativeMediaType>) -> WebcamWindowsBackend {
    let mut backend = WebcamWindowsBackend::new(Some(Ok(()))).ok().unwrap();
    let choice = choose_format(&natives).ok().unwrap();
    assert_eq!(backend.format_selected(id, source, all_interfaces(), choice, Ok(())), Ok(()));
    backend
}

fn two_formats() -> Vec<NativeMediaType> {
    vec![
        native(Subtype::Yuy2, 4, 2, 30, 1),
        native(Subtype::Mjpg, 2, 2, 30, 1),
    ]
}

// Formats

#[test]
fn a_frame_size_is_never_zero() {
    assert_eq!(frame_size(packed(1920, 1080)), (1920, 1080));
    assert_eq!(frame_size(packed(0, 0)), (1, 1));
    assert_eq!(frame_size(packed(u32::MAX, 0)), (u32::MAX, 1));
    assert_eq!(frame_size(None), (640, 480));
}

#[test]
fn formats_have_labels() {
    assert_eq!(format(true, 1920, 1080, 30, 1).label(), "1920×1080 MJPEG 30fps");
    assert_eq!(format(false, 640, 480, 30000, 1001).label(), "640×480 YUV 30fps");
    assert_eq!(format(false, 640, 480, 15, 2).label(), "640×480 YUV 8fps");
    assert_eq!(format(false, 640, 480, 5, 2).label(), "640×480 YUV 2fps");
    assert_eq!(format(true, 1, 1, 30, 0).label(), "1×1 MJPEG");
    assert_eq!(format(true, 1, 1, 0, 5).label(), "1×1 MJPEG 0fps");
}

#[test]
fn frame_rates_are_rounded_as_std_rounds_them() {
    let numbers = [0u32, 1, 2, 3, 5, 7, 15, 24, 25, 30, 59, 60, 1000, 1001, 24000, 30000, 60000, u32::MAX - 1, u32::MAX];
    for num in numbers {
        for den in numbers {
            if den > 0 {
                let expected = format!("1×1 YUV {:.0}fps", num as f64 / den as f64);
                assert_eq!(format(false, 1, 1, num, den).label(), expected, "{}/{}", num, den);
            }
        }
    }
    for num in 0..2000u32 {
        for den in 1..40u32 {
            let expected = format!("1×1 YUV {:.0}fps", num as f64 / den as f64);
            assert_eq!(format(false, 1, 1, num, den).label(), expected, "{}/{}", num, den);
        }
    }
}

#[test]
fn usable_formats_are_listed_once_and_sorted() {
    let natives = vec![
        native(Subtype::Yuy2, 640, 480, 30, 1),
        native(Subtype::Other, 3840, 2160, 30, 1),
        native(Subtype::Mjpg, 640, 480, 15, 1),
        native(Subtype::Mjpg, 640, 480, 30, 1),
        native(Subtype::Mjpg, 1920, 1080, 30, 1),
        native(Subtype::Mjpg, 640, 480, 30, 1),
        native(Subtype::Yuy2, 1920, 1080, 5, 1),
        native(Subtype::Mjpg, 480, 640, 30, 1),
        native(Subtype::Mjpg, 640, 480, 59, 2),
    ];
    let formats = enumerate_video_formats(&natives);
    let order: Vec<usize> = formats.iter().map(|f| f.media_type).collect();
    assert_eq!(order, vec![4, 6, 3, 7, 8, 2, 0]);
    assert_eq!(
        formats[0],
        VideoFormatInfo { media_type: 4, is_mjpeg: true, width: 1920, height: 1080, fps_num: 30, fps_den: 1 }
    );
}

#[test]
fn formats_of_one_size_begin_with_the_highest_frame_rate() {
    let natives = vec![
        native(Subtype::Mjpg, 640, 480, 29, 1),
        native(Subtype::Mjpg, 640, 480, 59, 2),
        native(Subtype::Mjpg, 640, 480, 30, 0),
        native(Subtype::Mjpg, 640, 480, 30, 1),
        native(Subtype::Mjpg, 640, 480, 60, 2),
        native(Subtype::Mjpg, 640, 480, 30000, 1001),
    ];
    let order: Vec<usize> = enumerate_video_formats(&natives).iter().map(|f| f.media_type).collect();
    assert_eq!(order, vec![3, 4, 5, 1, 0, 2]);
}

#[test]
fn large_frames_are_compared_by_their_area() {
    let natives = vec![
        native(Subtype::Mjpg, 1, 1, 30, 1),
        native(Subtype::Mjpg, 0x1_0000, 0x1_0000, 30, 1),
        native(Subtype::Mjpg, u32::MAX, u32::MAX, 30, 1),
    ];
    let order: Vec<usize> = enumerate_video_formats(&natives).iter().map(|f| f.media_type).collect();
    assert_eq!(order, vec![2, 1, 0]);
}

#[test]
fn a_format_without_size_or_rate_has_defaults() {
    let natives = vec![NativeMediaType { subtype: Subtype::Yuy2, frame_size: None, frame_rate: None }];
    let formats = enumerate_video_formats(&natives);
    assert_eq!(formats, vec![format(false, 640, 480, 0, 0)]);
    assert_eq!(formats[0].label(), "640×480 YUV");
}

#[test]
fn the_best_format_is_the_first_mjpeg_one() {
    let yuv = format(false, 1920, 1080, 30, 1);
    let mjpeg = format(true, 640, 480, 30, 1);
    assert_eq!(select_best_format_index(&[yuv, mjpeg, mjpeg]), 1);
    assert_eq!(select_best_format_index(&[yuv, yuv]), 0);
    assert_eq!(select_best_format_index(&[]), 0);
}

#[test]
fn the_highest_resolution_mjpeg_format_is_chosen() {
    let natives = vec![
        native(Subtype::Yuy2, 3840, 2160, 5, 1),
        native(Subtype::Mjpg, 1280, 720, 30, 1),
        native(Subtype::Mjpg, 1920, 1080, 30, 1),
    ];
    assert_eq!(choose_format(&natives).ok().unwrap().media_type(), 2);
    let only_yuv = vec![native(Subtype::Yuy2, 1, 1, 5, 1), native(Subtype::Yuy2, 2, 2, 5, 1)];
    assert_eq!(choose_format(&only_yuv).ok().unwrap().media_type(), 1);
}

#[test]
fn a_webcam_without_usable_formats_is_refused() {
    let none = vec![native(Subtype::Other, 640, 480, 30, 1)];
    assert_eq!(choose_format(&none).err(), Some(CameraError::SdkError(0xA102_0003)));
    assert_eq!(choose_format(&vec![]).err(), Some(CameraError::SdkError(0xA102_0003)));
}

// YUY2

#[test]
fn every_colour_is_that_of_the_single_precision_formula() {
    for u in 0..=255u8 {
        for v in 0..=255u8 {
            let uf = u as f32 - 128.0;
            let vf = v as f32 - 128.0;
            for y in 0..=255u8 {
                let yf = y as f32;
                let r = (yf + 1.402 * vf).clamp(0.0, 255.0) as u8;
                let g = (yf - 0.344_136 * uf - 0.714_136 * vf).clamp(0.0, 255.0) as u8;
                let b = (yf + 1.772 * uf).clamp(0.0, 255.0) as u8;
                if u == 0 {
                    assert_eq!(red_of(y, v), r, "red of {} {}", y, v);
                }
                if v == 0 {
                    assert_eq!(blue_of(y, u), b, "blue of {} {}", y, u);
                }
                assert_eq!(green_of(y, u, v), g, "green of {} {} {}", y, u, v);
            }
        }
    }
}

#[test]
fn a_yuy2_group_holds_two_pixels() {
    assert_eq!(yuyv_to_rgb(&[100, 128, 200, 128]), vec![100, 100, 100, 200, 200, 200]);
    assert_eq!(yuyv_to_rgb(&[81, 90, 145, 240]), vec![238, 14, 13, 255, 78, 77]);
    assert_eq!(yuyv_to_rgb(&[16, 128, 16]), Vec::<u8>::new());
    assert_eq!(yuyv_to_rgb(&[1, 128, 2, 128, 9, 9]).len(), 6);
}

#[test]
fn a_yuy2_frame_becomes_a_jpeg_file() {
    let data: Vec<u8> = (0..32u32).map(|i| (i * 37 % 251) as u8).collect();
    let file = yuyv_to_jpeg(&data, 4, 4).unwrap();
    let pixels = ImageBuffer::<Rgb<u8>, Vec<u8>>::from_raw(4, 4, yuyv_to_rgb(&data)).unwrap();
    let mut expected = std::io::Cursor::new(Vec::new());
    DynamicImage::ImageRgb8(pixels).write_to(&mut expected, ImageFormat::Jpeg).unwrap();
    assert_eq!(file, expected.into_inner());
    assert_eq!(&file[..2], &[0xFF, 0xD8]);
    let decoded = image::load_from_memory(&file).unwrap();
    assert_eq!((decoded.width(), decoded.height()), (4, 4));
}

#[test]
fn a_short_yuy2_frame_is_refused() {
    assert_eq!(yuyv_to_jpeg(&[1, 2, 3, 4], 2, 2), Err(CameraError::SdkError(0xDEAD_0001)));
    assert_eq!(yuyv_to_jpeg(&[], 1, 1), Err(CameraError::SdkError(0xDEAD_0001)));
    assert_eq!(
        yuyv_to_jpeg(&[], u32::MAX, u32::MAX),
        Err(CameraError::SdkError(0xDEAD_0001))
    );
}

#[test]
fn a_frame_that_jpeg_has_no_room_for_is_refused() {
    assert_eq!(yuyv_to_jpeg(&[], 0, 5), Err(CameraError::SdkError(0xDEAD_0002)));
    let wide = vec![128u8; 4 * 32768];
    assert_eq!(yuyv_to_jpeg(&wide, 65536, 1), Err(CameraError::SdkError(0xDEAD_0002)));
}

#[test]
fn what_the_encoder_answers_is_passed_on() {
    assert_eq!(frame_encoded(Some(Ok(vec![1, 2]))), Ok(vec![1, 2]));
    assert_eq!(
        frame_encoded(Some(Err("x".to_string()))),
        Err(CameraError::SdkError(0xDEAD_0002))
    );
    assert_eq!(frame_encoded(None), Err(CameraError::SdkError(0xDEAD_0001)));
}

// Parameters

fn manual(value: i32) -> ControlReading {
    ControlReading {
        range: Some(ControlRange { min: 0, max: 255, step: 1, default: 128, caps: 3 }),
        current: Some(ControlValue { value, flags: FLAGS_MANUAL }),
    }
}

fn absent() -> ControlReading {
    ControlReading { range: None, current: None }
}

fn nothing_read() -> WebcamReadings {
    WebcamReadings { video_proc_amp: None, camera_control: None, power_line: None }
}

fn kinds(parameters: &[WebcamParameter]) -> Vec<ParameterType> {
    parameters
        .iter()
        .map(|p| match p {
            WebcamParameter::Range { param_type, .. } => *param_type,
            WebcamParameter::Select { param_type, .. } => *param_type,
        })
        .collect()
}

fn option_pairs(parameter: &WebcamParameter) -> Vec<(String, String)> {
    match parameter {
        WebcamParameter::Select { options, .. } => {
            options.iter().map(|o| (o.label.clone(), o.value.clone())).collect()
        }
        WebcamParameter::Range { .. } => Vec::new(),
    }
}

fn pairs(list: &[(&str, &str)]) -> Vec<(String, String)> {
    list.iter().map(|(a, b)| (a.to_string(), b.to_string())).collect()
}

#[test]
fn formats_are_offered_where_there_is_a_choice() {
    let one = vec![format(true, 640, 480, 30, 1)];
    assert!(offered(&one, 0, &nothing_read()).is_empty());
    let two = vec![format(true, 640, 480, 30, 1), format(false, 320, 240, 15, 1)];
    let parameters = offered(&two, 1, &nothing_read());
    assert_eq!(kinds(&parameters), vec![ParameterType::VideoFormat]);
    assert_eq!(
        option_pairs(&parameters[0]),
        pairs(&[("640×480 MJPEG 30fps", "0"), ("320×240 YUV 15fps", "1")])
    );
    match &parameters[0] {
        WebcamParameter::Select { current, .. } => assert_eq!(current, "1"),
        WebcamParameter::Range { .. } => panic!("a format is no range"),
    }
}

#[test]
fn a_manual_property_offers_its_value_and_its_mode() {
    let mut readings = nothing_read();
    readings.video_proc_amp = Some(vec![manual(90)]);
    let parameters = offered(&vec![], 0, &readings);
    assert_eq!(kinds(&parameters), vec![ParameterType::Brightness, ParameterType::BrightnessMode]);
    assert_eq!(
        parameters[0],
        WebcamParameter::Range { param_type: ParameterType::Brightness, current: 90, min: 0, max: 255, step: 1 }
    );
    assert_eq!(option_pairs(&parameters[1]), pairs(&[("manual", "0"), ("auto", "1")]));
    match &parameters[1] {
        WebcamParameter::Select { current, .. } => assert_eq!(current, "0"),
        WebcamParameter::Range { .. } => panic!("a mode is no range"),
    }
}

#[test]
fn an_automatic_property_offers_its_mode_only() {
    let mut reading = manual(90);
    reading.current = Some(ControlValue { value: 90, flags: FLAGS_AUTO });
    let mut readings = nothing_read();
    readings.camera_control = Some(vec![reading]);
    let parameters = offered(&vec![], 0, &readings);
    assert_eq!(kinds(&parameters), vec![ParameterType::PanMode]);
    match &parameters[0] {
        WebcamParameter::Select { current, .. } => assert_eq!(current, "1"),
        WebcamParameter::Range { .. } => panic!("a mode is no range"),
    }
}

#[test]
fn a_property_without_modes_offers_its_value_only() {
    let mut sharpness = manual(5);
    sharpness.current = Some(ControlValue { value: 5, flags: FLAGS_AUTO });
    let mut contrast = manual(6);
    contrast.range = Some(ControlRange { min: 0, max: 9, step: 1, default: 4, caps: FLAGS_MANUAL });
    contrast.current = Some(ControlValue { value: 6, flags: FLAGS_AUTO });
    let mut readings = nothing_read();
    readings.video_proc_amp = Some(vec![absent(), contrast, absent(), absent(), sharpness]);
    let parameters = offered(&vec![], 0, &readings);
    assert_eq!(kinds(&parameters), vec![ParameterType::Contrast, ParameterType::Sharpness]);
}

#[test]
fn a_value_that_cannot_be_read_is_the_default() {
    let mut reading = manual(90);
    reading.current = None;
    let mut readings = nothing_read();
    readings.video_proc_amp = Some(vec![reading]);
    let parameters = offered(&vec![], 0, &readings);
    assert_eq!(
        parameters[0],
        WebcamParameter::Range { param_type: ParameterType::Brightness, current: 128, min: 0, max: 255, step: 1 }
    );
    assert_eq!(parameters.len(), 2);
}

#[test]
fn all_parameters_come_in_their_order() {
    let mut readings = nothing_read();
    readings.video_proc_amp = Some((0..9).map(manual).collect());
    readings.camera_control = Some((0..6).map(manual).collect());
    readings.power_line = Some(2);
    let formats = vec![format(true, 640, 480, 30, 1), format(false, 320, 240, 15, 1)];
    let parameters = offered(&formats, 0, &readings);
    assert_eq!(
        kinds(&parameters),
        vec![
            ParameterType::VideoFormat,
            ParameterType::Brightness,
            ParameterType::BrightnessMode,
            ParameterType::Contrast,
            ParameterType::ContrastMode,
            ParameterType::Hue,
            ParameterType::HueMode,
            ParameterType::Saturation,
            ParameterType::SaturationMode,
            ParameterType::Sharpness,
            ParameterType::Gamma,
            ParameterType::WhiteBalance,
            ParameterType::WhiteBalanceMode,
            ParameterType::BacklightCompensation,
            ParameterType::Gain,
            ParameterType::GainMode,
            ParameterType::Pan,
            ParameterType::PanMode,
            ParameterType::Tilt,
            ParameterType::TiltMode,
            ParameterType::Roll,
            ParameterType::RollMode,
            ParameterType::Zoom,
            ParameterType::Exposure,
            ParameterType::ExposureMode,
            ParameterType::Focus,
            ParameterType::FocusMode,
            ParameterType::PowerLineFrequency,
        ]
    );
    let last = parameters.last().unwrap();
    assert_eq!(option_pairs(last), pairs(&[("Disabled", "0"), ("50 Hz", "1"), ("60 Hz", "2")]));
    match last {
        WebcamParameter::Select { current, .. } => assert_eq!(current, "2"),
        WebcamParameter::Range { .. } => panic!("a frequency is no range"),
    }
}

#[test]
fn every_value_that_is_offered_can_be_set() {
    for interface in [ControlInterface::VideoProcAmp, ControlInterface::CameraControl] {
        for control in controls(interface) {
            assert_eq!(
                set_parameter_step(all_interfaces(), 0, control.value_type, "-7"),
                SetStep::SetValue { interface, property: control.property, value: -7, flags: FLAGS_MANUAL }
            );
            assert_eq!(
                set_parameter_step(no_interfaces(), 0, control.value_type, "-7"),
                SetStep::Unsupported
            );
            if let Some(mode) = control.mode_type {
                for (value, flags) in [("0", FLAGS_MANUAL), ("1", FLAGS_AUTO), ("on", FLAGS_AUTO)] {
                    assert_eq!(
                        set_parameter_step(all_interfaces(), 0, mode, value),
                        SetStep::SetMode { interface, property: control.property, flags }
                    );
                }
                assert_eq!(set_parameter_step(no_interfaces(), 0, mode, "1"), SetStep::Unsupported);
            }
        }
    }
}

#[test]
fn a_value_that_is_no_number_cannot_be_set() {
    for value in ["", "x", "1.5", "2147483648"] {
        assert_eq!(
            set_parameter_step(all_interfaces(), 0, ParameterType::Zoom, value),
            SetStep::Unsupported
        );
        assert_eq!(
            set_parameter_step(all_interfaces(), 0, ParameterType::PowerLineFrequency, value),
            SetStep::Unsupported
        );
    }
}

#[test]
fn a_format_is_set_by_its_index() {
    let step = |value: &str| set_parameter_step(no_interfaces(), 3, ParameterType::VideoFormat, value);
    assert_eq!(step("2"), SetStep::SetFormat { index: 2 });
    assert_eq!(step("0"), SetStep::SetFormat { index: 0 });
    assert_eq!(step("3"), SetStep::Unsupported);
    assert_eq!(step("-1"), SetStep::Unsupported);
    assert_eq!(step("first"), SetStep::Unsupported);
}

#[test]
fn a_new_mode_keeps_the_value_that_was_read() {
    assert_eq!(mode_value(Some(ControlValue { value: -7, flags: 1 })), -7);
    assert_eq!(mode_value(None), 0);
}

#[test]
fn the_mains_frequency_is_set_through_its_own_interface() {
    for (text, value) in [("0", 0), ("1", 1), ("2", 2)] {
        assert_eq!(
            set_parameter_step(all_interfaces(), 0, ParameterType::PowerLineFrequency, text),
            SetStep::SetPowerLine { value, flags: 2 }
        );
    }
    let mut interfaces = all_interfaces();
    interfaces.ks_control = false;
    assert_eq!(
        set_parameter_step(interfaces, 0, ParameterType::PowerLineFrequency, "1"),
        SetStep::Unsupported
    );
}

#[test]
fn parameters_stand_for_properties() {
    assert_eq!(vpa_prop(ParameterType::WhiteBalance), Some(7));
    assert_eq!(vpa_prop(ParameterType::Gain), Some(9));
    assert_eq!(vpa_prop(ParameterType::Pan), None);
    assert_eq!(cc_prop(ParameterType::Focus), Some(6));
    assert_eq!(cc_prop(ParameterType::Gain), None);
    assert_eq!(
        set_auto_vpa(all_interfaces(), 3, false),
        SetStep::SetMode { interface: ControlInterface::VideoProcAmp, property: 3, flags: 2 }
    );
    assert_eq!(
        set_auto_cc(all_interfaces(), 4, true),
        SetStep::SetMode { interface: ControlInterface::CameraControl, property: 4, flags: 1 }
    );
    assert_eq!(set_auto_vpa(no_interfaces(), 3, true), SetStep::Unsupported);
    assert_eq!(set_auto_cc(no_interfaces(), 3, true), SetStep::Unsupported);
}

// Sessions

fn source(name: Option<&str>, link: Option<&str>) -> Option<WebcamSource> {
    Some(WebcamSource {
        name: name.map(|s| s.to_string()),
        symbolic_link: link.map(|s| s.to_string()),
    })
}

#[test]
fn a_windows_backend_starts_with_its_thread() {
    let backend = WebcamWindowsBackend::new(Some(Ok(()))).ok().unwrap();
    assert_eq!(backend.backend_id(), "webcam-windows");
    assert_eq!(
        WebcamWindowsBackend::new(Some(Err(-0x7FFF_BFFB))).err(),
        Some(CameraError::SdkError(0x8000_4005))
    );
    assert_eq!(
        WebcamWindowsBackend::new(None).err(),
        Some(CameraError::SdkError(0xFFFF_FFFF))
    );
    assert_eq!(win_err(1), CameraError::SdkError(1));
    assert_eq!(win_err(-1), CameraError::SdkError(0xFFFF_FFFF));
}

#[test]
fn windows_webcams_are_listed_by_their_links() {
    let backend = backend_with("link2", 7, two_formats());
    let sources = vec![
        source(Some("One"), Some("link1")),
        None,
        source(None, Some("link2")),
        source(Some("No link"), None),
        source(Some("Empty link"), Some("")),
    ];
    let devices = backend.list_devices(Ok(sources)).unwrap();
    assert_eq!(devices.len(), 2);
    assert_eq!(devices[0].id, DeviceId::new("webcam-windows", "link1").encode());
    assert_eq!((devices[0].name.as_str(), devices[0].connected), ("One", false));
    assert_eq!((devices[1].name.as_str(), devices[1].connected), ("Unknown", true));
    assert_eq!(backend.list_devices(Err(-1)), Err(CameraError::SdkError(0xFFFF_FFFF)));
}

#[test]
fn the_first_webcam_with_a_link_is_found() {
    let sources = vec![
        None,
        source(Some("A"), Some("x")),
        source(Some("B"), Some("y")),
        source(Some("C"), Some("y")),
    ];
    assert_eq!(find_activate(&sources, "y"), Ok(2));
    assert_eq!(find_activate(&sources, "z"), Err(CameraError::DeviceNotFound("z".to_string())));
}

#[test]
fn a_windows_session_is_opened_once() {
    let mut backend = WebcamWindowsBackend::new(Some(Ok(()))).ok().unwrap();
    assert_eq!(backend.connect("a"), ConnectStep::OpenReader);
    let choice = choose_format(&two_formats()).ok().unwrap();
    assert_eq!(
        backend.format_selected("a", 1, no_interfaces(), choice, Err(-2)),
        Err(CameraError::SdkError(0xFFFF_FFFE))
    );
    assert!(!backend.is_connected("a"));
    let choice = choose_format(&two_formats()).ok().unwrap();
    assert_eq!(backend.format_selected("a", 1, no_interfaces(), choice, Ok(())), Ok(()));
    assert_eq!(backend.connect("a"), ConnectStep::Finish(Ok(())));
    let state = backend.session("a").ok().unwrap();
    assert_eq!(state.source(), 1);
    assert_eq!(state.current_format_idx(), 1);
    assert!(state.is_mjpeg());
    assert_eq!(state.size(), (2, 2));
    assert_eq!(state.interfaces(), no_interfaces());
    assert_eq!(state.formats().len(), 2);
}

#[test]
fn a_windows_session_is_closed() {
    let mut backend = backend_with("a", 7, two_formats());
    assert_eq!(backend.disconnect("b"), Err(CameraError::DeviceNotFound("b".to_string())));
    assert_eq!(backend.disconnect("a"), Ok(7));
    assert!(!backend.is_connected("a"));
    assert_eq!(backend.session("a").err(), Some(CameraError::NotConnected));
    let backend = backend_with("c", 9, two_formats());
    let open = backend.shut_down();
    assert_eq!(open.len(), 1);
    assert_eq!((open[0].0.as_str(), open[0].1.source()), ("c", 9));
}

#[test]
fn setting_a_format_changes_the_session() {
    let mut backend = backend_with("a", 7, two_formats());
    assert_eq!(
        backend.set_parameter("a", ParameterType::VideoFormat, "0"),
        Ok(SetStep::SetFormat { index: 0 })
    );
    assert_eq!(
        backend.parameter_set("a", ParameterType::VideoFormat, "0", Err(-1)),
        Err(CameraError::SdkError(0xFFFF_FFFF))
    );
    assert_eq!(backend.session("a").ok().unwrap().current_format_idx(), 1);
    assert_eq!(backend.parameter_set("a", ParameterType::VideoFormat, "0", Ok(())), Ok(()));
    let state = backend.session("a").ok().unwrap();
    assert_eq!(state.current_format_idx(), 0);
    assert!(!state.is_mjpeg());
    assert_eq!(state.size(), (4, 2));
    assert_eq!(state.source(), 7);
}

#[test]
fn a_parameter_is_set_on_a_connected_webcam_only() {
    let mut backend = backend_with("a", 7, two_formats());
    assert_eq!(
        backend.set_parameter("b", ParameterType::Zoom, "1"),
        Err(CameraError::NotConnected)
    );
    assert_eq!(
        backend.set_parameter("a", ParameterType::VideoFormat, "2"),
        Err(CameraError::NotSupported)
    );
    assert_eq!(
        backend.parameter_set("a", ParameterType::VideoFormat, "2", Ok(())),
        Err(CameraError::NotSupported)
    );
    assert_eq!(backend.parameter_set("a", ParameterType::Zoom, "1", Ok(())), Ok(()));
    assert_eq!(backend.session("a").ok().unwrap().current_format_idx(), 1);
}

#[test]
fn parameters_of_a_session_are_listed() {
    let backend = backend_with("a", 7, two_formats());
    let parameters = backend.get_parameters("a", &nothing_read()).unwrap();
    assert_eq!(kinds(&parameters), vec![ParameterType::VideoFormat]);
    match &parameters[0] {
        WebcamParameter::Select { current, .. } => assert_eq!(current, "1"),
        WebcamParameter::Range { .. } => panic!("a format is no range"),
    }
    assert_eq!(backend.get_parameters("b", &nothing_read()), Err(CameraError::NotConnected));
}

// Frames

fn read(flags: u32, has_sample: bool) -> SampleRead {
    SampleRead { flags: Ok(flags), has_sample }
}

#[test]
fn gaps_are_passed_over_until_a_frame_comes() {
    let mut search = FrameSearch::new();
    for _ in 0..4 {
        assert_eq!(search.sample_read(read(0x100, true)), FrameStep::ReadSample);
        assert_eq!(search.sample_read(read(0, false)), FrameStep::ReadSample);
    }
    assert_eq!(search.sample_read(read(0x20, true)), FrameStep::CopySample);
}

#[test]
fn ten_gaps_end_a_search() {
    let mut search = FrameSearch::new();
    for _ in 0..9 {
        assert_eq!(search.sample_read(read(0x100, false)), FrameStep::ReadSample);
    }
    assert_eq!(
        search.sample_read(read(0x100, false)),
        FrameStep::Fail(CameraError::SdkError(0xA102_0002))
    );
}

#[test]
fn the_last_of_ten_samples_can_hold_the_frame() {
    let mut search = FrameSearch::new();
    for _ in 0..9 {
        assert_eq!(search.sample_read(read(0, false)), FrameStep::ReadSample);
    }
    assert_eq!(search.sample_read(read(0, true)), FrameStep::CopySample);
}

#[test]
fn a_stream_error_ends_a_search() {
    assert_eq!(
        FrameSearch::new().sample_read(read(0x101, true)),
        FrameStep::Fail(CameraError::SdkError(0xA102_0001))
    );
    assert_eq!(
        FrameSearch::new().sample_read(SampleRead { flags: Err(-1), has_sample: false }),
        FrameStep::Fail(CameraError::SdkError(0xFFFF_FFFF))
    );
}

#[test]
fn a_frame_needs_a_session() {
    let backend = backend_with("a", 7, two_formats());
    assert_eq!(backend.get_live_view_frame("a"), Ok(FrameSearch::new()));
    assert_eq!(backend.get_live_view_frame("b"), Err(CameraError::NotConnected));
    assert_eq!(backend.frame_copied("b", Ok(vec![1])), Err(CameraError::NotConnected));
    assert_eq!(backend.frame_copied("a", Err(-1)), Err(CameraError::SdkError(0xFFFF_FFFF)));
}

#[test]
fn an_mjpeg_frame_is_handed_out_as_it_is() {
    let backend = backend_with("a", 7, two_formats());
    assert_eq!(backend.frame_copied("a", Ok(vec![9, 8, 7])), Ok(vec![9, 8, 7]));
}

#[test]
fn a_yuy2_frame_of_a_session_is_encoded() {
    let backend = backend_with("a", 7, vec![native(Subtype::Yuy2, 4, 2, 30, 1)]);
    let data: Vec<u8> = (0..16).map(|i| 16 * i as u8).collect();
    assert_eq!(backend.frame_copied("a", Ok(data.clone())), yuyv_to_jpeg(&data, 4, 2));
    assert_eq!(
        backend.frame_copied("a", Ok(vec![0; 12])),
        Err(CameraError::SdkError(0xDEAD_0001))
    );
}
