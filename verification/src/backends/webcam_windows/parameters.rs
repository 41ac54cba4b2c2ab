//! The parameters of a webcam: which ones it offers, and how one is set.

use crate::backends::webcam_windows::formats::VideoFormatInfo;
use crate::text;
use vstd::prelude::*;

verus! {

/// The parameters that a webcam can offer.
#[derive(Debug, Clone, Copy, PartialEq, Eq, Structural)]
pub enum ParameterType {
    VideoFormat,
    Brightness,
    BrightnessMode,
    Contrast,
    ContrastMode,
    Hue,
    HueMode,
    Saturation,
    SaturationMode,
    Sharpness,
    Gamma,
    WhiteBalance,
    WhiteBalanceMode,
    BacklightCompensation,
    Gain,
    GainMode,
    Pan,
    PanMode,
    Tilt,
    TiltMode,
    Roll,
    RollMode,
    Zoom,
    Exposure,
    ExposureMode,
    Focus,
    FocusMode,
    PowerLineFrequency,
}

/// One allowed value of a parameter.
#[derive(Debug, PartialEq, Eq)]
pub struct WebcamOption {
    pub label: String,
    pub value: String,
}

/// A parameter with its current value and what it can be set to.
#[derive(Debug, PartialEq, Eq)]
#[allow(inconsistent_fields)]
pub enum WebcamParameter {
    Range { param_type: ParameterType, current: i32, min: i32, max: i32, step: i32 },
    Select { param_type: ParameterType, current: String, options: Vec<WebcamOption> },
}

/// The mathematical content of a [`WebcamOption`].
pub struct WebcamOptionView {
    pub label: Seq<char>,
    pub value: Seq<char>,
}

/// The mathematical content of a [`WebcamParameter`].
#[allow(inconsistent_fields)]
pub enum WebcamParameterView {
    Range { param_type: ParameterType, current: i32, min: i32, max: i32, step: i32 },
    Select { param_type: ParameterType, current: Seq<char>, options: Seq<WebcamOptionView> },
}

impl View for WebcamOption {
    type V = WebcamOptionView;

    open spec fn view(&self) -> WebcamOptionView {
        WebcamOptionView { label: self.label@, value: self.value@ }
    }
}

/// Options by their views.
pub open spec fn options_view(options: Seq<WebcamOption>) -> Seq<WebcamOptionView> {
    options.map_values(|o: WebcamOption| o@)
}

impl View for WebcamParameter {
    type V = WebcamParameterView;

    open spec fn view(&self) -> WebcamParameterView {
        match *self {
            WebcamParameter::Range { param_type, current, min, max, step } =>
                WebcamParameterView::Range { param_type, current, min, max, step },
            WebcamParameter::Select { param_type, current, options } =>
                WebcamParameterView::Select {
                param_type,
                current: current@,
                options: options_view(options@),
            },
        }
    }
}

/// Parameters by their views.
pub open spec fn parameters_view(parameters: Seq<WebcamParameter>) -> Seq<WebcamParameterView> {
    parameters.map_values(|p: WebcamParameter| p@)
}

// ---------------------------------------------------------------------------
// Controls
// ---------------------------------------------------------------------------

/// The interfaces through which a webcam is controlled.
#[derive(Debug, Clone, Copy, PartialEq, Eq, Structural)]
pub enum ControlInterface {
    VideoProcAmp,
    CameraControl,
}

/// A property of one of the interfaces, with the parameter for its value and, where it can be
/// left to the camera, the parameter for its mode.
#[derive(Debug, Clone, Copy, PartialEq, Eq)]
pub struct Control {
    pub interface: ControlInterface,
    pub property: i32,
    pub value_type: ParameterType,
    pub mode_type: Option<ParameterType>,
}

/// The flag of a value that the camera chooses itself.
pub const FLAGS_AUTO: i32 = 1;

/// The flag of a value that is set from outside.
pub const FLAGS_MANUAL: i32 = 2;

/// The range of a property.
#[derive(Debug, Clone, Copy, PartialEq, Eq)]
pub struct ControlRange {
    pub min: i32,
    pub max: i32,
    pub step: i32,
    pub default: i32,
    /// The flags that the property can have.
    pub caps: i32,
}

/// The value of a property and its flags.
#[derive(Debug, Clone, Copy, PartialEq, Eq)]
pub struct ControlValue {
    pub value: i32,
    pub flags: i32,
}

/// What a webcam said about one of its properties; `None` stands for a failed call.
#[derive(Debug, Clone, Copy, PartialEq, Eq)]
pub struct ControlReading {
    pub range: Option<ControlRange>,
    pub current: Option<ControlValue>,
}

pub open spec fn control(
    interface: ControlInterface,
    property: i32,
    value_type: ParameterType,
    mode_type: Option<ParameterType>,
) -> Control {
    Control { interface, property, value_type, mode_type }
}

/// The properties of the video processing amplifier that are offered, in their order.
pub open spec fn video_proc_amp_controls() -> Seq<Control> {
    let amp = ControlInterface::VideoProcAmp;
    seq![
        control(amp, 0, ParameterType::Brightness, Some(ParameterType::BrightnessMode)),
        control(amp, 1, ParameterType::Contrast, Some(ParameterType::ContrastMode)),
        control(amp, 2, ParameterType::Hue, Some(ParameterType::HueMode)),
        control(amp, 3, ParameterType::Saturation, Some(ParameterType::SaturationMode)),
        control(amp, 4, ParameterType::Sharpness, None),
        control(amp, 5, ParameterType::Gamma, None),
        control(amp, 7, ParameterType::WhiteBalance, Some(ParameterType::WhiteBalanceMode)),
        control(amp, 8, ParameterType::BacklightCompensation, None),
        control(amp, 9, ParameterType::Gain, Some(ParameterType::GainMode)),
    ]
}

/// The properties of the camera control that are offered, in their order.
pub open spec fn camera_control_controls() -> Seq<Control> {
    let camera = ControlInterface::CameraControl;
    seq![
        control(camera, 0, ParameterType::Pan, Some(ParameterType::PanMode)),
        control(camera, 1, ParameterType::Tilt, Some(ParameterType::TiltMode)),
        control(camera, 2, ParameterType::Roll, Some(ParameterType::RollMode)),
        control(camera, 3, ParameterType::Zoom, None),
        control(camera, 4, ParameterType::Exposure, Some(ParameterType::ExposureMode)),
        control(camera, 6, ParameterType::Focus, Some(ParameterType::FocusMode)),
    ]
}

fn control_of(
    interface: ControlInterface,
    property: i32,
    value_type: ParameterType,
    mode_type: Option<ParameterType>,
) -> (c: Control)
    ensures
        c == control(interface, property, value_type, mode_type),
{
    Control { interface, property, value_type, mode_type }
}

/// The properties that are offered of an interface, in their order.
pub open spec fn controls_of(interface: ControlInterface) -> Seq<Control> {
    match interface {
        ControlInterface::VideoProcAmp => video_proc_amp_controls(),
        ControlInterface::CameraControl => camera_control_controls(),
    }
}

/// The properties that are offered of an interface, in their order.
pub fn controls(interface: ControlInterface) -> (list: Vec<Control>)
    ensures
        list@ == controls_of(interface),
{
    let mut list: Vec<Control> = Vec::new();
    match interface {
        ControlInterface::VideoProcAmp => {
            let brightness = Some(ParameterType::BrightnessMode);
            let contrast = Some(ParameterType::ContrastMode);
            let hue = Some(ParameterType::HueMode);
            let saturation = Some(ParameterType::SaturationMode);
            let white_balance = Some(ParameterType::WhiteBalanceMode);
            let gain = Some(ParameterType::GainMode);
            list.push(control_of(interface, 0, ParameterType::Brightness, brightness));
            list.push(control_of(interface, 1, ParameterType::Contrast, contrast));
            list.push(control_of(interface, 2, ParameterType::Hue, hue));
            list.push(control_of(interface, 3, ParameterType::Saturation, saturation));
            list.push(control_of(interface, 4, ParameterType::Sharpness, None));
            list.push(control_of(interface, 5, ParameterType::Gamma, None));
            list.push(control_of(interface, 7, ParameterType::WhiteBalance, white_balance));
            list.push(control_of(interface, 8, ParameterType::BacklightCompensation, None));
            list.push(control_of(interface, 9, ParameterType::Gain, gain));
            assert(list@ =~= video_proc_amp_controls());
        },
        ControlInterface::CameraControl => {
            let pan = Some(ParameterType::PanMode);
            let tilt = Some(ParameterType::TiltMode);
            let roll = Some(ParameterType::RollMode);
            let exposure = Some(ParameterType::ExposureMode);
            let focus = Some(ParameterType::FocusMode);
            list.push(control_of(interface, 0, ParameterType::Pan, pan));
            list.push(control_of(interface, 1, ParameterType::Tilt, tilt));
            list.push(control_of(interface, 2, ParameterType::Roll, roll));
            list.push(control_of(interface, 3, ParameterType::Zoom, None));
            list.push(control_of(interface, 4, ParameterType::Exposure, exposure));
            list.push(control_of(interface, 6, ParameterType::Focus, focus));
            assert(list@ =~= camera_control_controls());
        },
    }
    list
}

// ---------------------------------------------------------------------------
// What is offered
// ---------------------------------------------------------------------------

/// An option.
pub open spec fn option(label: Seq<char>, value: Seq<char>) -> WebcamOptionView {
    WebcamOptionView { label, value }
}

/// The two modes of a property.
pub open spec fn mode_options() -> Seq<WebcamOptionView> {
    seq![option("manual"@, "0"@), option("auto"@, "1"@)]
}

/// The mains frequencies against which a camera can be tuned.
pub open spec fn power_line_options() -> Seq<WebcamOptionView> {
    seq![option("Disabled"@, "0"@), option("50 Hz"@, "1"@), option("60 Hz"@, "2"@)]
}

/// The formats as options: each is chosen by its index.
pub open spec fn format_options(formats: Seq<VideoFormatInfo>) -> Seq<WebcamOptionView> {
    Seq::new(
        formats.len(),
        |i: int| option(formats[i].label_text(), text::decimal(i as nat)),
    )
}

/// The choice between the formats, where there is one.
pub open spec fn format_parameters(formats: Seq<VideoFormatInfo>, current: int) -> Seq<
    WebcamParameterView,
> {
    if formats.len() > 1 {
        seq![
            WebcamParameterView::Select {
                param_type: ParameterType::VideoFormat,
                current: text::decimal(current as nat),
                options: format_options(formats),
            },
        ]
    } else {
        Seq::empty()
    }
}

/// Whether the camera can choose the value of the property itself.
pub open spec fn has_mode(control: Control, range: ControlRange) -> bool {
    control.mode_type is Some && range.caps & FLAGS_AUTO != 0
}

/// Whether the camera chooses the value of the property itself now.
pub open spec fn in_auto_mode(control: Control, reading: ControlReading) -> bool {
    &&& reading.range matches Some(range) && has_mode(control, range)
    &&& reading.current matches Some(current) && current.flags & FLAGS_AUTO != 0
}

/// The parameters of a property: its value, unless the camera chooses that itself, and its
/// mode, where it has one.
pub open spec fn control_parameters(control: Control, reading: ControlReading) -> Seq<
    WebcamParameterView,
> {
    match reading.range {
        Some(range) => {
            let value = if in_auto_mode(control, reading) {
                Seq::empty()
            } else {
                seq![
                    WebcamParameterView::Range {
                        param_type: control.value_type,
                        current: match reading.current {
                            Some(current) => current.value,
                            None => range.default,
                        },
                        min: range.min,
                        max: range.max,
                        step: range.step,
                    },
                ]
            };
            if has_mode(control, range) {
                value.push(
                    WebcamParameterView::Select {
                        param_type: control.mode_type->0,
                        current: if in_auto_mode(control, reading) {
                            "1"@
                        } else {
                            "0"@
                        },
                        options: mode_options(),
                    },
                )
            } else {
                value
            }
        },
        None => Seq::empty(),
    }
}

/// What was read of the property at `i`; a property of which nothing was read counts as one
/// whose calls failed.
pub open spec fn reading_at(readings: Seq<ControlReading>, i: int) -> ControlReading {
    if 0 <= i < readings.len() {
        readings[i]
    } else {
        ControlReading { range: None, current: None }
    }
}

/// The parameters of all properties of `list`.
pub open spec fn listed_parameters(list: Seq<Control>, readings: Seq<ControlReading>) -> Seq<
    WebcamParameterView,
>
    decreases list.len(),
{
    if list.len() == 0 {
        Seq::empty()
    } else {
        listed_parameters(list.drop_last(), readings) + control_parameters(
            list.last(),
            reading_at(readings, list.len() - 1),
        )
    }
}

/// The parameters of the properties of an interface, where the webcam has it.
pub open spec fn interface_parameters(
    interface: ControlInterface,
    readings: Option<Seq<ControlReading>>,
) -> Seq<WebcamParameterView> {
    match readings {
        Some(r) => listed_parameters(controls_of(interface), r),
        None => Seq::empty(),
    }
}

/// The choice of the mains frequency, where the webcam has one.
pub open spec fn power_line_parameters(power_line: Option<i32>) -> Seq<WebcamParameterView> {
    match power_line {
        Some(value) => seq![
            WebcamParameterView::Select {
                param_type: ParameterType::PowerLineFrequency,
                current: text::signed_decimal(value as int),
                options: power_line_options(),
            },
        ],
        None => Seq::empty(),
    }
}

/// Everything that was read from a webcam to list its parameters. An interface that the webcam
/// lacks, or a call that failed, is `None`.
#[derive(Debug, PartialEq, Eq)]
pub struct WebcamReadings {
    pub video_proc_amp: Option<Vec<ControlReading>>,
    pub camera_control: Option<Vec<ControlReading>>,
    pub power_line: Option<i32>,
}

/// Readings by their view.
pub open spec fn readings_view(readings: Option<Vec<ControlReading>>) -> Option<
    Seq<ControlReading>,
> {
    match readings {
        Some(r) => Some(r@),
        None => None,
    }
}

/// The parameters that a webcam offers.
pub open spec fn offered_parameters(
    formats: Seq<VideoFormatInfo>,
    current: int,
    readings: WebcamReadings,
) -> Seq<WebcamParameterView> {
    format_parameters(formats, current) + interface_parameters(
        ControlInterface::VideoProcAmp,
        readings_view(readings.video_proc_amp),
    ) + interface_parameters(
        ControlInterface::CameraControl,
        readings_view(readings.camera_control),
    ) + power_line_parameters(readings.power_line)
}

fn option_of(label: &str, value: &str) -> (o: WebcamOption)
    ensures
        o@ == option(label@, value@),
{
    WebcamOption { label: label.to_owned(), value: value.to_owned() }
}

fn mode_select(mode_type: ParameterType, auto: bool) -> (p: WebcamParameter)
    ensures
        p@ == (WebcamParameterView::Select {
            param_type: mode_type,
            current: if auto {
                "1"@
            } else {
                "0"@
            },
            options: mode_options(),
        }),
{
    let mut options: Vec<WebcamOption> = Vec::new();
    options.push(option_of("manual", "0"));
    options.push(option_of("auto", "1"));
    assert(options_view(options@) =~= mode_options());
    let current = if auto {
        "1"
    } else {
        "0"
    };
    WebcamParameter::Select { param_type: mode_type, current: current.to_owned(), options }
}

fn format_select(formats: &Vec<VideoFormatInfo>, current: usize) -> (p: WebcamParameter)
    ensures
        p@ == (WebcamParameterView::Select {
            param_type: ParameterType::VideoFormat,
            current: text::decimal(current as nat),
            options: format_options(formats@),
        }),
{
    let mut options: Vec<WebcamOption> = Vec::new();
    let mut i: usize = 0;
    while i < formats.len()
        invariant
            i <= formats@.len(),
            options_view(options@) == format_options(formats@).take(i as int),
        decreases formats@.len() - i,
    {
        let ghost before = options@;
        let label = formats[i].label();
        options.push(option_of(label.as_str(), text::decimal_text(i as u64).as_str()));
        i += 1;
        assert(options_view(options@) =~= options_view(before).push(options@.last()@));
        assert(options_view(options@) =~= format_options(formats@).take(i as int));
    }
    assert(options_view(options@) =~= format_options(formats@));
    WebcamParameter::Select {
        param_type: ParameterType::VideoFormat,
        current: text::decimal_text(current as u64),
        options,
    }
}

fn power_line_select(value: i32) -> (p: WebcamParameter)
    ensures
        power_line_parameters(Some(value)) == seq![p@],
{
    let mut options: Vec<WebcamOption> = Vec::new();
    options.push(option_of("Disabled", "0"));
    options.push(option_of("50 Hz", "1"));
    options.push(option_of("60 Hz", "2"));
    assert(options_view(options@) =~= power_line_options());
    WebcamParameter::Select {
        param_type: ParameterType::PowerLineFrequency,
        current: text::signed_decimal_text(value),
        options,
    }
}

fn push_parameter(list: &mut Vec<WebcamParameter>, p: WebcamParameter)
    ensures
        parameters_view(final(list)@) == parameters_view(old(list)@).push(p@),
{
    list.push(p);
    assert(parameters_view(list@) =~= parameters_view(old(list)@).push(p@));
}

fn push_control(list: &mut Vec<WebcamParameter>, control: Control, reading: ControlReading)
    ensures
        parameters_view(final(list)@) == parameters_view(old(list)@) + control_parameters(
            control,
            reading,
        ),
{
    let ghost before = parameters_view(list@);
    let range = match reading.range {
        Some(range) => range,
        None => {
            assert(before + Seq::<WebcamParameterView>::empty() =~= before);
            return ;
        },
    };
    let (current, flags): (i32, i32) = match reading.current {
        Some(current) => (current.value, current.flags),
        None => (range.default, 0),
    };
    let moded = control.mode_type.is_some() && range.caps & FLAGS_AUTO != 0;
    assert(0i32 & FLAGS_AUTO == 0) by (bit_vector);
    let auto = moded && flags & FLAGS_AUTO != 0;
    if !auto {
        push_parameter(
            list,
            WebcamParameter::Range {
                param_type: control.value_type,
                current,
                min: range.min,
                max: range.max,
                step: range.step,
            },
        );
    }
    if let Some(mode_type) = control.mode_type {
        if moded {
            push_parameter(list, mode_select(mode_type, auto));
        }
    }
    assert(parameters_view(list@) =~= before + control_parameters(control, reading));
}

fn push_interface(
    list: &mut Vec<WebcamParameter>,
    interface: ControlInterface,
    readings: &Option<Vec<ControlReading>>,
)
    ensures
        parameters_view(final(list)@) == parameters_view(old(list)@) + interface_parameters(
            interface,
            readings_view(*readings),
        ),
{
    let ghost before = parameters_view(list@);
    let readings = match readings {
        Some(readings) => readings,
        None => {
            assert(before + Seq::<WebcamParameterView>::empty() =~= before);
            return ;
        },
    };
    let all = controls(interface);
    let mut i: usize = 0;
    assert(all@.take(0) =~= Seq::empty());
    assert(before + Seq::<WebcamParameterView>::empty() =~= before);
    while i < all.len()
        invariant
            i <= all@.len(),
            parameters_view(list@) == before + listed_parameters(all@.take(i as int), readings@),
        decreases all@.len() - i,
    {
        assert(all@.take(i + 1).drop_last() =~= all@.take(i as int));
        let reading = if i < readings.len() {
            readings[i]
        } else {
            ControlReading { range: None, current: None }
        };
        let ghost so_far = listed_parameters(all@.take(i as int), readings@);
        push_control(list, all[i], reading);
        assert(before + so_far + control_parameters(all@[i as int], reading) =~= before + (so_far
            + control_parameters(all@[i as int], reading)));
        i += 1;
    }
    assert(all@.take(i as int) =~= all@);
}

/// Lists the parameters that a webcam offers, of what was read from it.
pub fn offered(
    formats: &Vec<VideoFormatInfo>,
    current: usize,
    readings: &WebcamReadings,
) -> (parameters: Vec<WebcamParameter>)
    ensures
        parameters_view(parameters@) == offered_parameters(formats@, current as int, *readings),
{
    let mut list: Vec<WebcamParameter> = Vec::new();
    if formats.len() > 1 {
        push_parameter(&mut list, format_select(formats, current));
    }
    assert(parameters_view(list@) =~= format_parameters(formats@, current as int));
    push_interface(&mut list, ControlInterface::VideoProcAmp, &readings.video_proc_amp);
    push_interface(&mut list, ControlInterface::CameraControl, &readings.camera_control);
    let ghost before = parameters_view(list@);
    if let Some(value) = readings.power_line {
        push_parameter(&mut list, power_line_select(value));
    }
    assert(parameters_view(list@) =~= before + power_line_parameters(readings.power_line));
    list
}

// ---------------------------------------------------------------------------
// Setting
// ---------------------------------------------------------------------------

/// What setting a parameter asks for.
#[derive(Debug, Clone, Copy, PartialEq, Eq, Structural)]
pub enum SetStep {
    /// Switches the stream to the format at `index`, then flushes it.
    SetFormat { index: usize },
    /// Sets the mains frequency.
    SetPowerLine { value: i32, flags: i32 },
    /// Reads the value of the property and sets what [`mode_value`] makes of it with `flags`.
    SetMode { interface: ControlInterface, property: i32, flags: i32 },
    /// Sets the property.
    SetValue { interface: ControlInterface, property: i32, value: i32, flags: i32 },
    /// The parameter cannot be set, or not to this value.
    Unsupported,
}

/// The interfaces that a webcam has.
#[derive(Debug, Clone, Copy, PartialEq, Eq, Structural)]
pub struct Interfaces {
    pub video_proc_amp: bool,
    pub camera_control: bool,
    pub ks_control: bool,
}

impl Interfaces {
    /// Whether the webcam has the interface.
    pub open spec fn has(self, interface: ControlInterface) -> bool {
        match interface {
            ControlInterface::VideoProcAmp => self.video_proc_amp,
            ControlInterface::CameraControl => self.camera_control,
        }
    }
}

/// The property of the video processing amplifier behind a parameter.
pub open spec fn vpa_property(param_type: ParameterType) -> Option<i32> {
    match param_type {
        ParameterType::Brightness => Some(0),
        ParameterType::Contrast => Some(1),
        ParameterType::Hue => Some(2),
        ParameterType::Saturation => Some(3),
        ParameterType::Sharpness => Some(4),
        ParameterType::Gamma => Some(5),
        ParameterType::WhiteBalance => Some(7),
        ParameterType::BacklightCompensation => Some(8),
        ParameterType::Gain => Some(9),
        _ => None,
    }
}

/// The property of the camera control behind a parameter.
pub open spec fn cc_property(param_type: ParameterType) -> Option<i32> {
    match param_type {
        ParameterType::Pan => Some(0),
        ParameterType::Tilt => Some(1),
        ParameterType::Roll => Some(2),
        ParameterType::Zoom => Some(3),
        ParameterType::Exposure => Some(4),
        ParameterType::Focus => Some(6),
        _ => None,
    }
}

/// The property whose mode a parameter is.
pub open spec fn mode_property(param_type: ParameterType) -> Option<(ControlInterface, i32)> {
    match param_type {
        ParameterType::BrightnessMode => Some((ControlInterface::VideoProcAmp, 0)),
        ParameterType::ContrastMode => Some((ControlInterface::VideoProcAmp, 1)),
        ParameterType::HueMode => Some((ControlInterface::VideoProcAmp, 2)),
        ParameterType::SaturationMode => Some((ControlInterface::VideoProcAmp, 3)),
        ParameterType::WhiteBalanceMode => Some((ControlInterface::VideoProcAmp, 7)),
        ParameterType::GainMode => Some((ControlInterface::VideoProcAmp, 9)),
        ParameterType::PanMode => Some((ControlInterface::CameraControl, 0)),
        ParameterType::TiltMode => Some((ControlInterface::CameraControl, 1)),
        ParameterType::RollMode => Some((ControlInterface::CameraControl, 2)),
        ParameterType::ExposureMode => Some((ControlInterface::CameraControl, 4)),
        ParameterType::FocusMode => Some((ControlInterface::CameraControl, 6)),
        _ => None,
    }
}

/// Setting a format: the value is its index.
pub open spec fn set_format_step(formats: nat, value: Seq<char>) -> SetStep {
    match text::parsed(value, false) {
        Some(n) if n <= usize::MAX && n < formats => SetStep::SetFormat { index: n as usize },
        _ => SetStep::Unsupported,
    }
}

/// Setting a mode: everything but `0` leaves the value to the camera.
pub open spec fn set_mode_step(
    interfaces: Interfaces,
    interface: ControlInterface,
    property: i32,
    value: Seq<char>,
) -> SetStep {
    if interfaces.has(interface) {
        SetStep::SetMode {
            interface,
            property,
            flags: if value == "0"@ {
                FLAGS_MANUAL
            } else {
                FLAGS_AUTO
            },
        }
    } else {
        SetStep::Unsupported
    }
}

/// Setting a number.
pub open spec fn set_number_step(
    interfaces: Interfaces,
    param_type: ParameterType,
    value: i32,
) -> SetStep {
    if param_type == ParameterType::PowerLineFrequency {
        if interfaces.ks_control {
            SetStep::SetPowerLine { value, flags: FLAGS_MANUAL }
        } else {
            SetStep::Unsupported
        }
    } else if interfaces.video_proc_amp && vpa_property(param_type) is Some {
        SetStep::SetValue {
            interface: ControlInterface::VideoProcAmp,
            property: vpa_property(param_type)->0,
            value,
            flags: FLAGS_MANUAL,
        }
    } else if interfaces.camera_control && cc_property(param_type) is Some {
        SetStep::SetValue {
            interface: ControlInterface::CameraControl,
            property: cc_property(param_type)->0,
            value,
            flags: FLAGS_MANUAL,
        }
    } else {
        SetStep::Unsupported
    }
}

/// What setting a parameter of a webcam with `formats` formats asks for.
pub open spec fn set_step(
    interfaces: Interfaces,
    formats: nat,
    param_type: ParameterType,
    value: Seq<char>,
) -> SetStep {
    if param_type == ParameterType::VideoFormat {
        set_format_step(formats, value)
    } else {
        match mode_property(param_type) {
            Some((interface, property)) => set_mode_step(interfaces, interface, property, value),
            None => match text::parsed(value, true) {
                Some(n) if i32::MIN <= n <= i32::MAX => set_number_step(
                    interfaces,
                    param_type,
                    n as i32,
                ),
                _ => SetStep::Unsupported,
            },
        }
    }
}

/// The property of the video processing amplifier behind a parameter.
pub fn vpa_prop(param_type: ParameterType) -> (property: Option<i32>)
    ensures
        property == vpa_property(param_type),
{
    match param_type {
        ParameterType::Brightness => Some(0),
        ParameterType::Contrast => Some(1),
        ParameterType::Hue => Some(2),
        ParameterType::Saturation => Some(3),
        ParameterType::Sharpness => Some(4),
        ParameterType::Gamma => Some(5),
        ParameterType::WhiteBalance => Some(7),
        ParameterType::BacklightCompensation => Some(8),
        ParameterType::Gain => Some(9),
        _ => None,
    }
}

/// The property of the camera control behind a parameter.
pub fn cc_prop(param_type: ParameterType) -> (property: Option<i32>)
    ensures
        property == cc_property(param_type),
{
    match param_type {
        ParameterType::Pan => Some(0),
        ParameterType::Tilt => Some(1),
        ParameterType::Roll => Some(2),
        ParameterType::Zoom => Some(3),
        ParameterType::Exposure => Some(4),
        ParameterType::Focus => Some(6),
        _ => None,
    }
}

fn mode_prop(param_type: ParameterType) -> (property: Option<(ControlInterface, i32)>)
    ensures
        property == mode_property(param_type),
{
    match param_type {
        ParameterType::BrightnessMode => Some((ControlInterface::VideoProcAmp, 0)),
        ParameterType::ContrastMode => Some((ControlInterface::VideoProcAmp, 1)),
        ParameterType::HueMode => Some((ControlInterface::VideoProcAmp, 2)),
        ParameterType::SaturationMode => Some((ControlInterface::VideoProcAmp, 3)),
        ParameterType::WhiteBalanceMode => Some((ControlInterface::VideoProcAmp, 7)),
        ParameterType::GainMode => Some((ControlInterface::VideoProcAmp, 9)),
        ParameterType::PanMode => Some((ControlInterface::CameraControl, 0)),
        ParameterType::TiltMode => Some((ControlInterface::CameraControl, 1)),
        ParameterType::RollMode => Some((ControlInterface::CameraControl, 2)),
        ParameterType::ExposureMode => Some((ControlInterface::CameraControl, 4)),
        ParameterType::FocusMode => Some((ControlInterface::CameraControl, 6)),
        _ => None,
    }
}

/// Sets the mode of a property of the video processing amplifier.
pub fn set_auto_vpa(interfaces: Interfaces, property: i32, auto: bool) -> (step: SetStep)
    ensures
        step == if interfaces.video_proc_amp {
            SetStep::SetMode {
                interface: ControlInterface::VideoProcAmp,
                property,
                flags: if auto {
                    FLAGS_AUTO
                } else {
                    FLAGS_MANUAL
                },
            }
        } else {
            SetStep::Unsupported
        },
{
    if !interfaces.video_proc_amp {
        return SetStep::Unsupported;
    }
    let flags: i32 = if auto {
        FLAGS_AUTO
    } else {
        FLAGS_MANUAL
    };
    SetStep::SetMode { interface: ControlInterface::VideoProcAmp, property, flags }
}

/// The value that a property is set to with a new mode: the one that was read, or zero where it
/// could not be read.
pub fn mode_value(read: Option<ControlValue>) -> (value: i32)
    ensures
        value == match read {
            Some(current) => current.value,
            None => 0,
        },
{
    match read {
        Some(current) => current.value,
        None => 0,
    }
}

/// Sets the mode of a property of the camera control.
pub fn set_auto_cc(interfaces: Interfaces, property: i32, auto: bool) -> (step: SetStep)
    ensures
        step == if interfaces.camera_control {
            SetStep::SetMode {
                interface: ControlInterface::CameraControl,
                property,
                flags: if auto {
                    FLAGS_AUTO
                } else {
                    FLAGS_MANUAL
                },
            }
        } else {
            SetStep::Unsupported
        },
{
    if !interfaces.camera_control {
        return SetStep::Unsupported;
    }
    let flags: i32 = if auto {
        FLAGS_AUTO
    } else {
        FLAGS_MANUAL
    };
    SetStep::SetMode { interface: ControlInterface::CameraControl, property, flags }
}

/// Begins to set a parameter of a webcam with `formats` formats.
pub fn set_parameter_step(
    interfaces: Interfaces,
    formats: usize,
    param_type: ParameterType,
    value: &str,
) -> (step: SetStep)
    ensures
        step == set_step(interfaces, formats as nat, param_type, value@),
{
    // Format switch: the value is the index of the format.
    if param_type == ParameterType::VideoFormat {
        return match text::parse_usize(value) {
            Some(index) if index < formats => SetStep::SetFormat { index },
            _ => SetStep::Unsupported,
        };
    }
    // Mode switch: "1" is auto, "0" is manual.
    if let Some((interface, property)) = mode_prop(param_type) {
        let auto = !text::same_text(value, "0");
        return match interface {
            ControlInterface::VideoProcAmp => set_auto_vpa(interfaces, property, auto),
            ControlInterface::CameraControl => set_auto_cc(interfaces, property, auto),
        };
    }
    // Everything else is a number.
    let value: i32 = match text::parse_i32(value) {
        Some(value) => value,
        None => {
            return SetStep::Unsupported;
        },
    };
    if param_type == ParameterType::PowerLineFrequency {
        return if interfaces.ks_control {
            SetStep::SetPowerLine { value, flags: FLAGS_MANUAL }
        } else {
            SetStep::Unsupported
        };
    }
    if interfaces.video_proc_amp {
        if let Some(property) = vpa_prop(param_type) {
            let interface = ControlInterface::VideoProcAmp;
            return SetStep::SetValue { interface, property, value, flags: FLAGS_MANUAL };
        }
    }
    if interfaces.camera_control {
        if let Some(property) = cc_prop(param_type) {
            let interface = ControlInterface::CameraControl;
            return SetStep::SetValue { interface, property, value, flags: FLAGS_MANUAL };
        }
    }
    SetStep::Unsupported
}

// ---------------------------------------------------------------------------
// Laws
// ---------------------------------------------------------------------------

/// The value of a property is offered only while it is set from outside: in auto mode a
/// property has its mode as its one parameter, and otherwise its value comes first.
pub proof fn auto_mode_hides_the_value(control: Control, reading: ControlReading)
    requires
        reading.range is Some,
    ensures
        in_auto_mode(control, reading) ==> control_parameters(control, reading) == seq![
            WebcamParameterView::Select {
                param_type: control.mode_type->0,
                current: "1"@,
                options: mode_options(),
            },
        ],
        !in_auto_mode(control, reading) ==> {
            let first = control_parameters(control, reading)[0];
            first is Range && first->Range_param_type == control.value_type
        },
{
    assert(Seq::<WebcamParameterView>::empty().push(
        WebcamParameterView::Select {
            param_type: control.mode_type->0,
            current: "1"@,
            options: mode_options(),
        },
    ) =~= seq![
        WebcamParameterView::Select {
            param_type: control.mode_type->0,
            current: "1"@,
            options: mode_options(),
        },
    ]);
}

/// A property that is offered is the one that is set.
pub proof fn what_is_offered_is_what_is_set(interface: ControlInterface, i: int)
    requires
        0 <= i < controls_of(interface).len(),
    ensures
        ({
            let control = controls_of(interface)[i];
            &&& control.interface == interface
            &&& mode_property(control.value_type) is None
            &&& control.mode_type matches Some(mode) ==> mode_property(mode) == Some(
                (interface, control.property),
            )
            &&& match interface {
                ControlInterface::VideoProcAmp => vpa_property(control.value_type) == Some(
                    control.property,
                ),
                ControlInterface::CameraControl => {
                    &&& vpa_property(control.value_type) is None
                    &&& cc_property(control.value_type) == Some(control.property)
                },
            }
        }),
{
    if interface == ControlInterface::VideoProcAmp {
        assert(i == 0 || i == 1 || i == 2 || i == 3 || i == 4 || i == 5 || i == 6 || i == 7 || i
            == 8);
    } else {
        assert(i == 0 || i == 1 || i == 2 || i == 3 || i == 4 || i == 5);
    }
}

/// Every format that is offered can be set by its option, and the current format is one of
/// the options.
pub proof fn offered_formats_can_be_set(
    interfaces: Interfaces,
    formats: Seq<VideoFormatInfo>,
    i: int,
)
    requires
        0 <= i < formats.len() <= usize::MAX,
    ensures
        set_step(
            interfaces,
            formats.len(),
            ParameterType::VideoFormat,
            format_options(formats)[i].value,
        ) == (SetStep::SetFormat { index: i as usize }),
        formats.len() > 1 ==> format_parameters(formats, i)[0]->Select_current
            == format_options(formats)[i].value,
{
    text::decimal_is_read_back(i as nat);
}

/// Every value of a property that is offered can be set to any number, and is then set from
/// outside.
pub proof fn offered_values_can_be_set(
    interfaces: Interfaces,
    formats: nat,
    interface: ControlInterface,
    i: int,
    value: i32,
)
    requires
        0 <= i < controls_of(interface).len(),
        interfaces.has(interface),
    ensures
        set_step(
            interfaces,
            formats,
            controls_of(interface)[i].value_type,
            text::signed_decimal(value as int),
        ) == (SetStep::SetValue {
            interface,
            property: controls_of(interface)[i].property,
            value,
            flags: FLAGS_MANUAL,
        }),
{
    what_is_offered_is_what_is_set(interface, i);
    text::signed_decimal_is_read_back(value as int);
    assert(controls_of(interface)[i].value_type != ParameterType::VideoFormat);
    assert(controls_of(interface)[i].value_type != ParameterType::PowerLineFrequency);
}

/// Both modes of a property that has modes can be set by their options.
pub proof fn offered_modes_can_be_set(
    interfaces: Interfaces,
    formats: nat,
    interface: ControlInterface,
    i: int,
    mode: ParameterType,
)
    requires
        0 <= i < controls_of(interface).len(),
        interfaces.has(interface),
        controls_of(interface)[i].mode_type == Some(mode),
    ensures
        set_step(interfaces, formats, mode, mode_options()[0].value) == (SetStep::SetMode {
            interface,
            property: controls_of(interface)[i].property,
            flags: FLAGS_MANUAL,
        }),
        set_step(interfaces, formats, mode, mode_options()[1].value) == (SetStep::SetMode {
            interface,
            property: controls_of(interface)[i].property,
            flags: FLAGS_AUTO,
        }),
{
    what_is_offered_is_what_is_set(interface, i);
    reveal_strlit("0");
    reveal_strlit("1");
    assert("0"@[0] != "1"@[0]);
}

/// Every mains frequency that is offered can be set by its option: the value is the place of
/// the option.
pub proof fn offered_power_line_frequencies_can_be_set(
    interfaces: Interfaces,
    formats: nat,
    i: int,
)
    requires
        0 <= i < power_line_options().len(),
        interfaces.ks_control,
    ensures
        set_step(
            interfaces,
            formats,
            ParameterType::PowerLineFrequency,
            power_line_options()[i].value,
        ) == (SetStep::SetPowerLine { value: i as i32, flags: FLAGS_MANUAL }),
{
    reveal_strlit("0");
    reveal_strlit("1");
    reveal_strlit("2");
    assert("0"@ =~= text::decimal(0));
    assert("1"@ =~= text::decimal(1));
    assert("2"@ =~= text::decimal(2));
    text::decimal_is_read_back(i as nat);
    assert(power_line_options()[i].value == text::decimal(i as nat));
}

/// A value that is offered has the bounds that were read and the value that was read, or its
/// default where none was. It is left out in auto mode only; a property can be in auto mode where
/// it has a mode and its flags say so. The mode follows the value, and a property without a range
/// is left out.
pub proof fn an_offered_value_has_the_bounds_that_were_read(
    control: Control,
    reading: ControlReading,
)
    ensures
        reading.range is None ==> control_parameters(control, reading) == Seq::<
            WebcamParameterView,
        >::empty(),
        reading.range matches Some(range) ==> {
            let list = control_parameters(control, reading);
            let moded = control.mode_type is Some && range.caps & 1i32 != 0;
            let auto = moded && reading.current is Some && reading.current->Some_0.flags & 1i32
                != 0;
            &&& list.len() == (if auto {
                0int
            } else {
                1
            }) + (if moded {
                1int
            } else {
                0
            })
            &&& !auto ==> {
                &&& list[0] is Range
                &&& list[0]->Range_param_type == control.value_type
                &&& list[0]->min == range.min
                &&& list[0]->max == range.max
                &&& list[0]->step == range.step
                &&& reading.current is Some ==> list[0]->Range_current
                    == reading.current->Some_0.value
                &&& reading.current is None ==> list[0]->Range_current == range.default
            }
            &&& moded ==> {
                let mode = list[list.len() - 1];
                &&& mode is Select
                &&& mode->Select_param_type == control.mode_type->Some_0
                &&& mode->Select_current == (if auto {
                    "1"@
                } else {
                    "0"@
                })
                &&& mode->options.len() == 2
                &&& mode->options[0].label == "manual"@ && mode->options[0].value == "0"@
                &&& mode->options[1].label == "auto"@ && mode->options[1].value == "1"@
            }
        },
{
}

/// The parameters of a webcam are those of its formats, then those of the amplifier, then those of
/// the camera control, then the mains frequency: each part is what is offered where nothing else
/// was read.
pub proof fn parameters_come_part_by_part(
    formats: Seq<VideoFormatInfo>,
    current: int,
    readings: WebcamReadings,
)
    ensures
        offered_parameters(formats, current, readings) == offered_parameters(
            formats,
            current,
            (WebcamReadings { video_proc_amp: None, camera_control: None, power_line: None }),
        ) + offered_parameters(
            Seq::empty(),
            0,
            (WebcamReadings {
                video_proc_amp: readings.video_proc_amp,
                camera_control: None,
                power_line: None,
            }),
        ) + offered_parameters(
            Seq::empty(),
            0,
            (WebcamReadings {
                video_proc_amp: None,
                camera_control: readings.camera_control,
                power_line: None,
            }),
        ) + offered_parameters(
            Seq::empty(),
            0,
            (WebcamReadings {
                video_proc_amp: None,
                camera_control: None,
                power_line: readings.power_line,
            }),
        ),
{
    let none: Seq<WebcamParameterView> = Seq::empty();
    let f = format_parameters(formats, current);
    let v = interface_parameters(
        ControlInterface::VideoProcAmp,
        readings_view(readings.video_proc_amp),
    );
    let c = interface_parameters(
        ControlInterface::CameraControl,
        readings_view(readings.camera_control),
    );
    let p = power_line_parameters(readings.power_line);
    assert(f + none + none + none =~= f);
    assert(none + v + none + none =~= v);
    assert(none + none + c + none =~= c);
    assert(none + none + none + p =~= p);
}

/// Where nothing was read, a webcam offers the choice between its formats, if there are two or
/// more: each is chosen by its place, and the current one is named by its place.
pub proof fn formats_are_offered_by_their_places(formats: Seq<VideoFormatInfo>, current: nat)
    ensures
        ({
            let offered = offered_parameters(
                formats,
                current as int,
                (WebcamReadings { video_proc_amp: None, camera_control: None, power_line: None }),
            );
            &&& formats.len() < 2 ==> offered.len() == 0
            &&& formats.len() >= 2 ==> {
                &&& offered.len() == 1
                &&& offered[0] is Select
                &&& offered[0]->Select_param_type == ParameterType::VideoFormat
                &&& offered[0]->Select_current == text::decimal(current)
                &&& offered[0]->options.len() == formats.len()
                &&& forall|i: int|
                    0 <= i < formats.len() ==> (#[trigger] offered[0]->options[i]).value
                        == text::decimal(i as nat) && offered[0]->options[i].label
                        == formats[i].label_text()
            }
        }),
{
}

/// The properties of an interface are offered in their order, each of what was read of it:
/// reading one more property adds its parameters at the end, and reading more than there are
/// properties adds nothing.
pub proof fn each_property_adds_its_own_parameters(
    fewer: WebcamReadings,
    more: WebcamReadings,
    amplifier: bool,
    reading: ControlReading,
)
    requires
        fewer.power_line is None && more.power_line is None,
        amplifier ==> {
            &&& fewer.camera_control is None && more.camera_control is None
            &&& fewer.video_proc_amp is Some && more.video_proc_amp is Some
            &&& more.video_proc_amp->Some_0@ == fewer.video_proc_amp->Some_0@.push(reading)
        },
        !amplifier ==> {
            &&& fewer.video_proc_amp is None && more.video_proc_amp is None
            &&& fewer.camera_control is Some && more.camera_control is Some
            &&& more.camera_control->Some_0@ == fewer.camera_control->Some_0@.push(reading)
        },
    ensures
        ({
            let before = offered_parameters(Seq::empty(), 0, fewer);
            let after = offered_parameters(Seq::empty(), 0, more);
            let (list, read) = if amplifier {
                (controls_of(ControlInterface::VideoProcAmp), fewer.video_proc_amp->Some_0@.len())
            } else {
                (controls_of(ControlInterface::CameraControl), fewer.camera_control->Some_0@.len())
            };
            &&& read == 0 ==> before.len() == 0
            &&& read < list.len() ==> after == before + control_parameters(
                list[read as int],
                reading,
            )
            &&& read >= list.len() ==> after == before
        }),
{
    let none: Seq<WebcamParameterView> = Seq::empty();
    let (list, few) = if amplifier {
        (controls_of(ControlInterface::VideoProcAmp), fewer.video_proc_amp->Some_0@)
    } else {
        (controls_of(ControlInterface::CameraControl), fewer.camera_control->Some_0@)
    };
    let many = few.push(reading);
    let (before, after) = (listed_parameters(list, few), listed_parameters(list, many));
    assert(none + before + none + none =~= before);
    assert(none + none + before + none =~= before);
    assert(none + after + none + none =~= after);
    assert(none + none + after + none =~= after);
    lemma_listed(list, few, reading, list.len());
    assert(list.take(list.len() as int) =~= list);
    if few.len() == 0 {
        lemma_nothing_listed(list, few);
    }
}

proof fn lemma_nothing_listed(list: Seq<Control>, readings: Seq<ControlReading>)
    requires
        readings.len() == 0,
    ensures
        listed_parameters(list, readings).len() == 0,
    decreases list.len(),
{
    if list.len() > 0 {
        lemma_nothing_listed(list.drop_last(), readings);
    }
}

proof fn lemma_listed(
    list: Seq<Control>,
    readings: Seq<ControlReading>,
    reading: ControlReading,
    n: nat,
)
    requires
        n <= list.len(),
    ensures
        listed_parameters(list.take(n as int), readings.push(reading)) == listed_parameters(
            list.take(n as int),
            readings,
        ) + (if readings.len() < n {
            control_parameters(list[readings.len() as int], reading)
        } else {
            Seq::empty()
        }),
    decreases n,
{
    let part = list.take(n as int);
    let more = readings.push(reading);
    let none: Seq<WebcamParameterView> = Seq::empty();
    if n > 0 {
        let front = list.take(n - 1);
        lemma_listed(list, readings, reading, (n - 1) as nat);
        assert(part.drop_last() =~= front);
        let last = control_parameters(list[n - 1], reading_at(readings, n - 1));
        let all = listed_parameters(part, readings);
        assert(all == listed_parameters(front, readings) + last);
        if n - 1 < readings.len() {
            assert(reading_at(more, n - 1) == reading_at(readings, n - 1));
            assert(listed_parameters(front, readings) + none =~= listed_parameters(
                front,
                readings,
            ));
            assert(all + none =~= all);
        } else if n - 1 == readings.len() {
            assert(last =~= none);
            assert(listed_parameters(front, readings) + none =~= listed_parameters(
                front,
                readings,
            ));
        } else {
            assert(last =~= none);
            let added = control_parameters(list[readings.len() as int], reading);
            assert(listed_parameters(front, readings) + added + none =~= all + added);
        }
    } else {
        assert(none + none =~= none);
    }
}

/// Where only the mains frequency was read, it is offered with the value that was read and its
/// three options; where it was not, nothing is.
pub proof fn the_mains_frequency_is_offered_as_it_was_read(power_line: Option<i32>)
    ensures
        ({
            let offered = offered_parameters(
                Seq::empty(),
                0,
                (WebcamReadings { video_proc_amp: None, camera_control: None, power_line }),
            );
            &&& power_line is None ==> offered.len() == 0
            &&& power_line matches Some(value) ==> {
                &&& offered.len() == 1
                &&& offered[0] is Select
                &&& offered[0]->Select_param_type == ParameterType::PowerLineFrequency
                &&& offered[0]->Select_current == text::signed_decimal(value as int)
                &&& offered[0]->options.len() == 3
                &&& offered[0]->options[0] == option("Disabled"@, "0"@)
                &&& offered[0]->options[1] == option("50 Hz"@, "1"@)
                &&& offered[0]->options[2] == option("60 Hz"@, "2"@)
            }
        }),
{
}

/// A format is set by any text that reads as its place, and by no other.
pub proof fn formats_are_set_by_their_places(
    interfaces: Interfaces,
    formats: nat,
    value: Seq<char>,
)
    requires
        formats <= usize::MAX,
    ensures
        ({
            let step = set_step(interfaces, formats, ParameterType::VideoFormat, value);
            match text::parsed(value, false) {
                Some(n) if n < formats => step is SetFormat && step->index == n,
                _ => step is Unsupported,
            }
        }),
{
    if let Some(n) = text::parsed(value, false) {
        assert(n >= 0);
    }
}

/// The value of a property is set to whatever number a text reads as, as a manual value, where
/// the webcam has the interface of the property and the number fits.
pub proof fn values_are_set_as_they_are_read(
    interfaces: Interfaces,
    formats: nat,
    interface: ControlInterface,
    i: int,
    value: Seq<char>,
)
    requires
        0 <= i < controls_of(interface).len(),
    ensures
        ({
            let control = controls_of(interface)[i];
            let step = set_step(interfaces, formats, control.value_type, value);
            let there = match interface {
                ControlInterface::VideoProcAmp => interfaces.video_proc_amp,
                ControlInterface::CameraControl => interfaces.camera_control,
            };
            match text::parsed(value, true) {
                Some(n) if there && -0x8000_0000 <= n < 0x8000_0000 => {
                    &&& step is SetValue
                    &&& step->SetValue_interface == interface
                    &&& step->SetValue_property == control.property
                    &&& step->SetValue_value == n
                    &&& step->SetValue_flags == 2
                },
                _ => step is Unsupported,
            }
        }),
{
    what_is_offered_is_what_is_set(interface, i);
    assert(controls_of(interface)[i].value_type != ParameterType::VideoFormat);
    assert(controls_of(interface)[i].value_type != ParameterType::PowerLineFrequency);
    if interface == ControlInterface::VideoProcAmp {
        assert(cc_property(controls_of(interface)[i].value_type) is None);
    }
}

/// The mode of a property is manual where it is set to `0` and auto where it is set to anything
/// else, if the webcam has the interface of the property.
pub proof fn modes_are_auto_unless_zero(
    interfaces: Interfaces,
    formats: nat,
    interface: ControlInterface,
    i: int,
    value: Seq<char>,
)
    requires
        0 <= i < controls_of(interface).len(),
        controls_of(interface)[i].mode_type is Some,
    ensures
        ({
            let control = controls_of(interface)[i];
            let step = set_step(interfaces, formats, control.mode_type->Some_0, value);
            let there = match interface {
                ControlInterface::VideoProcAmp => interfaces.video_proc_amp,
                ControlInterface::CameraControl => interfaces.camera_control,
            };
            &&& !there ==> step is Unsupported
            &&& there ==> {
                &&& step is SetMode
                &&& step->SetMode_interface == interface
                &&& step->SetMode_property == control.property
                &&& step->SetMode_flags == (if value == seq!['0'] {
                    2int
                } else {
                    1int
                })
            }
        }),
{
    what_is_offered_is_what_is_set(interface, i);
    reveal_strlit("0");
    assert("0"@ =~= seq!['0']);
}

/// The mains frequency is set to whatever number a text reads as, as a manual value, where the
/// webcam has the interface for it and the number fits.
pub proof fn the_mains_frequency_is_set_as_it_is_read(
    interfaces: Interfaces,
    formats: nat,
    value: Seq<char>,
)
    ensures
        ({
            let step = set_step(interfaces, formats, ParameterType::PowerLineFrequency, value);
            match text::parsed(value, true) {
                Some(n) if interfaces.ks_control && -0x8000_0000 <= n < 0x8000_0000 => {
                    &&& step is SetPowerLine
                    &&& step->SetPowerLine_value == n
                    &&& step->SetPowerLine_flags == 2
                },
                _ => step is Unsupported,
            }
        }),
{
}

/// The properties of an interface are numbered as they are listed. One number is left out: six of
/// the amplifier and five of the camera control.
pub proof fn properties_are_numbered_as_they_are_listed(interface: ControlInterface, i: int)
    requires
        0 <= i < controls_of(interface).len(),
    ensures
        controls_of(ControlInterface::VideoProcAmp).len() == 9,
        controls_of(ControlInterface::CameraControl).len() == 6,
        ({
            let gap = match interface {
                ControlInterface::VideoProcAmp => 6int,
                ControlInterface::CameraControl => 5int,
            };
            controls_of(interface)[i].property == (if i < gap {
                i
            } else {
                i + 1
            })
        }),
{
    if interface == ControlInterface::VideoProcAmp {
        assert(i == 0 || i == 1 || i == 2 || i == 3 || i == 4 || i == 5 || i == 6 || i == 7 || i
            == 8);
    } else {
        assert(i == 0 || i == 1 || i == 2 || i == 3 || i == 4 || i == 5);
    }
}

/// Only what is listed is a property: a parameter with a number is the value or the mode of a
/// property in the list of its interface.
pub proof fn numbered_parameters_are_listed(param_type: ParameterType)
    ensures
        vpa_property(param_type) is Some ==> exists|i: int|
            0 <= i < controls_of(ControlInterface::VideoProcAmp).len() && (
            #[trigger] controls_of(ControlInterface::VideoProcAmp)[i]).value_type == param_type,
        cc_property(param_type) is Some ==> exists|i: int|
            0 <= i < controls_of(ControlInterface::CameraControl).len() && (
            #[trigger] controls_of(ControlInterface::CameraControl)[i]).value_type == param_type,
        mode_property(param_type) matches Some((interface, _)) ==> exists|i: int|
            0 <= i < controls_of(interface).len() && (
            #[trigger] controls_of(interface)[i]).mode_type == Some(param_type),
{
    let amp = controls_of(ControlInterface::VideoProcAmp);
    let camera = controls_of(ControlInterface::CameraControl);
    assert(amp[0].value_type == ParameterType::Brightness && amp[1].value_type
        == ParameterType::Contrast && amp[2].value_type == ParameterType::Hue && amp[3].value_type
        == ParameterType::Saturation && amp[4].value_type == ParameterType::Sharpness
        && amp[5].value_type == ParameterType::Gamma && amp[6].value_type
        == ParameterType::WhiteBalance && amp[7].value_type == ParameterType::BacklightCompensation
        && amp[8].value_type == ParameterType::Gain);
    assert(camera[0].value_type == ParameterType::Pan && camera[1].value_type == ParameterType::Tilt
        && camera[2].value_type == ParameterType::Roll && camera[3].value_type
        == ParameterType::Zoom && camera[4].value_type == ParameterType::Exposure
        && camera[5].value_type == ParameterType::Focus);
}

/// A parameter is compared by all of its fields.
pub proof fn parameters_are_seen_field_by_field(p: WebcamParameter)
    ensures
        match p {
            WebcamParameter::Range { param_type, current, min, max, step } => {
                &&& p@ is Range
                &&& p@->Range_param_type == param_type
                &&& p@->Range_current == current
                &&& p@->min == min
                &&& p@->max == max
                &&& p@->step == step
            },
            WebcamParameter::Select { param_type, current, options } => {
                &&& p@ is Select
                &&& p@->Select_param_type == param_type
                &&& p@->Select_current == current@
                &&& p@->options.len() == options@.len()
                &&& forall|i: int|
                    0 <= i < options@.len() ==> (#[trigger] p@->options[i]).label
                        == options@[i].label@ && p@->options[i].value == options@[i].value@
            },
        },
{
}

/// Lists of parameters are compared place by place.
pub proof fn lists_are_seen_place_by_place(parameters: Seq<WebcamParameter>, i: int)
    requires
        0 <= i < parameters.len(),
    ensures
        parameters_view(parameters).len() == parameters.len(),
        parameters_view(parameters)[i] == parameters[i]@,
{
}

/// What was read of an interface is compared place by place.
pub proof fn readings_are_seen_as_they_are(readings: Vec<ControlReading>)
    ensures
        readings_view(Some(readings)) == Some(readings@),
        readings_view(None) is None,
{
}

}
