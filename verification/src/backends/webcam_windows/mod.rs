//! Windows webcams.

pub mod formats;
pub mod parameters;
pub mod yuyv;

use crate::backends::actor;
use crate::backends::webcam_windows::formats::{NativeMediaType, VideoFormatInfo};
use crate::backends::webcam_windows::parameters::{
    Interfaces, ParameterType, SetStep, WebcamParameter, WebcamReadings,
};
use crate::camera;
use crate::camera::{CameraError, CameraErrorView, DeviceId, DeviceInfo, DeviceInfoView};
use crate::sessions;
use crate::sessions::SessionTable;
use crate::text;
use vstd::prelude::*;

verus! {

/// The status where the stream reports an error.
pub const STREAM_FAILED: u32 = 0xA102_0001;

/// The status where no sample held a frame.
pub const NO_FRAME: u32 = 0xA102_0002;

/// The status where a webcam has no usable format.
pub const NO_FORMAT: u32 = 0xA102_0003;

/// The stream flag of an error.
pub const FLAG_ERROR: u32 = 0x0001;

/// The stream flag of a gap without a frame.
pub const FLAG_STREAM_TICK: u32 = 0x0100;

/// How many samples are read for one frame.
pub const FRAME_TRIES: u32 = 10;

/// The COM objects of an open session.
pub type SourceRef = u64;

/// The error of a failed call.
pub open spec fn failed_call(hresult: i32) -> CameraErrorView {
    CameraErrorView::SdkError(text::unsigned_code(hresult) as u32)
}

/// The error of a failed call: its code, read as an unsigned number.
pub fn win_err(hresult: i32) -> (e: CameraError)
    ensures
        e@ == failed_call(hresult),
{
    assert(hresult < 0 ==> hresult as u32 == hresult + 0x1_0000_0000) by (bit_vector);
    assert(hresult >= 0 ==> hresult as u32 == hresult) by (bit_vector);
    CameraError::SdkError(hresult as u32)
}

// ---------------------------------------------------------------------------
// Sessions
// ---------------------------------------------------------------------------

/// An open session.
pub struct DeviceState {
    source: SourceRef,
    interfaces: Interfaces,
    formats: Vec<VideoFormatInfo>,
    current_format_idx: usize,
    // What the current format says, for convenience.
    is_mjpeg: bool,
    width: u32,
    height: u32,
}

/// The mathematical content of a [`DeviceState`].
#[verifier::ext_equal]
pub struct DeviceStateView {
    pub source: SourceRef,
    pub interfaces: Interfaces,
    pub formats: Seq<VideoFormatInfo>,
    pub current: int,
}

impl DeviceStateView {
    /// The format in which frames come.
    pub open spec fn format(self) -> VideoFormatInfo {
        self.formats[self.current]
    }
}

impl View for DeviceState {
    type V = DeviceStateView;

    closed spec fn view(&self) -> DeviceStateView {
        DeviceStateView {
            source: self.source,
            interfaces: self.interfaces,
            formats: self.formats@,
            current: self.current_format_idx as int,
        }
    }
}

impl DeviceState {
    #[verifier::type_invariant]
    spec fn inv(self) -> bool {
        &&& self.current_format_idx < self.formats@.len()
        &&& self.is_mjpeg == self.formats@[self.current_format_idx as int].is_mjpeg
        &&& self.width == self.formats@[self.current_format_idx as int].width
        &&& self.height == self.formats@[self.current_format_idx as int].height
    }

    /// A session whose frames come in the format at `index`.
    fn new(
        source: SourceRef,
        interfaces: Interfaces,
        formats: Vec<VideoFormatInfo>,
        index: usize,
    ) -> (state: Self)
        requires
            index < formats@.len(),
        ensures
            state@ == (DeviceStateView {
                source,
                interfaces,
                formats: formats@,
                current: index as int,
            }),
    {
        let format = formats[index];
        DeviceState {
            source,
            interfaces,
            formats,
            current_format_idx: index,
            is_mjpeg: format.is_mjpeg,
            width: format.width,
            height: format.height,
        }
    }

    pub fn source(&self) -> (source: SourceRef)
        ensures
            source == self@.source,
    {
        self.source
    }

    pub fn interfaces(&self) -> (interfaces: Interfaces)
        ensures
            interfaces == self@.interfaces,
    {
        self.interfaces
    }

    pub fn formats(&self) -> (formats: &Vec<VideoFormatInfo>)
        ensures
            formats@ == self@.formats,
            0 <= self@.current < formats@.len(),
    {
        proof {
            use_type_invariant(self);
        }
        &self.formats
    }

    pub fn current_format_idx(&self) -> (index: usize)
        ensures
            index == self@.current,
            index < self@.formats.len(),
    {
        proof {
            use_type_invariant(self);
        }
        self.current_format_idx
    }

    /// Whether frames come as JPEG files.
    pub fn is_mjpeg(&self) -> (yes: bool)
        ensures
            yes == self@.format().is_mjpeg,
    {
        proof {
            use_type_invariant(self);
        }
        self.is_mjpeg
    }

    /// The width and the height of frames.
    pub fn size(&self) -> (size: (u32, u32))
        ensures
            size == (self@.format().width, self@.format().height),
    {
        proof {
            use_type_invariant(self);
        }
        (self.width, self.height)
    }

    /// The session behind a switch to the format at `index`.
    fn switched(self, index: usize) -> (state: Self)
        requires
            index < self@.formats.len(),
        ensures
            state@ == (DeviceStateView { current: index as int, ..self@ }),
    {
        DeviceState::new(self.source, self.interfaces, self.formats, index)
    }
}

/// Windows webcam backend: the sessions that are open on its SDK thread.
pub struct WebcamWindowsBackend {
    sessions: SessionTable<DeviceState>,
}

impl View for WebcamWindowsBackend {
    type V = Map<Seq<char>, DeviceStateView>;

    closed spec fn view(&self) -> Map<Seq<char>, DeviceStateView> {
        sessions_view(self.sessions@)
    }
}

/// The sessions by their views.
pub open spec fn sessions_view(sessions: Map<Seq<char>, DeviceState>) -> Map<
    Seq<char>,
    DeviceStateView,
> {
    sessions.map_values(|s: DeviceState| s@)
}

/// The sources of the open sessions.
pub open spec fn sources_of(sessions: Map<Seq<char>, DeviceStateView>) -> Map<
    Seq<char>,
    SourceRef,
> {
    sessions.map_values(|s: DeviceStateView| s.source)
}

proof fn lemma_insert(sessions: Map<Seq<char>, DeviceState>, id: Seq<char>, state: DeviceState)
    ensures
        sessions_view(sessions.insert(id, state)) == sessions_view(sessions).insert(id, state@),
{
    assert(sessions_view(sessions.insert(id, state)) =~= sessions_view(sessions).insert(id, state@));
}

proof fn lemma_remove(sessions: Map<Seq<char>, DeviceState>, id: Seq<char>)
    ensures
        sessions_view(sessions.remove(id)) == sessions_view(sessions).remove(id),
{
    assert(sessions_view(sessions.remove(id)) =~= sessions_view(sessions).remove(id));
}

// ---------------------------------------------------------------------------
// Listing and finding webcams
// ---------------------------------------------------------------------------

/// What a webcam in the list of sources says of itself; what cannot be read is `None`.
#[derive(Debug, PartialEq, Eq)]
pub struct WebcamSource {
    pub name: Option<String>,
    pub symbolic_link: Option<String>,
}

/// The text in an attribute.
pub open spec fn attribute(text: Option<String>) -> Option<Seq<char>> {
    match text {
        Some(t) => Some(t@),
        None => None,
    }
}

/// What clients are told about a webcam, where it has a symbolic link to know it by.
pub open spec fn device_in(
    sessions: Map<Seq<char>, DeviceStateView>,
    source: Option<WebcamSource>,
) -> Option<DeviceInfoView> {
    match source {
        Some(source) => match attribute(source.symbolic_link) {
            Some(link) if link.len() > 0 => Some(
                DeviceInfoView {
                    id: camera::encoded_id("webcam-windows"@, link),
                    name: match attribute(source.name) {
                        Some(name) => name,
                        None => "Unknown"@,
                    },
                    connected: sessions.dom().contains(link),
                },
            ),
            _ => None,
        },
        None => None,
    }
}

/// The webcams that clients are told about.
pub open spec fn devices_in(
    sessions: Map<Seq<char>, DeviceStateView>,
    sources: Seq<Option<WebcamSource>>,
) -> Seq<DeviceInfoView>
    decreases sources.len(),
{
    if sources.len() == 0 {
        Seq::empty()
    } else {
        let before = devices_in(sessions, sources.drop_last());
        match device_in(sessions, sources.last()) {
            Some(device) => before.push(device),
            None => before,
        }
    }
}

/// Whether a source is the webcam with the symbolic link `native_id`.
pub open spec fn is_linked(source: Option<WebcamSource>, native_id: Seq<char>) -> bool {
    source matches Some(s) && attribute(s.symbolic_link) == Some(native_id)
}

/// Finds the webcam whose symbolic link is `native_id`: the first one, where there are several.
pub fn find_activate(sources: &Vec<Option<WebcamSource>>, native_id: &str) -> (found: Result<
    usize,
    CameraError,
>)
    ensures
        match found {
            Ok(i) => {
                &&& i < sources@.len()
                &&& is_linked(sources@[i as int], native_id@)
                &&& forall|j: int| 0 <= j < i ==> !is_linked(#[trigger] sources@[j], native_id@)
            },
            Err(e) => {
                &&& e@ == CameraErrorView::DeviceNotFound(native_id@)
                &&& forall|j: int|
                    0 <= j < sources@.len() ==> !is_linked(#[trigger] sources@[j], native_id@)
            },
        },
{
    let mut i: usize = 0;
    while i < sources.len()
        invariant
            i <= sources@.len(),
            forall|j: int| 0 <= j < i ==> !is_linked(#[trigger] sources@[j], native_id@),
        decreases sources@.len() - i,
    {
        if let Some(source) = &sources[i] {
            if let Some(link) = &source.symbolic_link {
                if text::same_text(link.as_str(), native_id) {
                    return Ok(i);
                }
            }
        }
        i += 1;
    }
    Err(CameraError::DeviceNotFound(native_id.to_owned()))
}

// ---------------------------------------------------------------------------
// Opening a session
// ---------------------------------------------------------------------------

/// The formats of a webcam and the one that its session begins with.
pub struct FormatChoice {
    formats: Vec<VideoFormatInfo>,
    index: usize,
}

impl View for FormatChoice {
    type V = (Seq<VideoFormatInfo>, int);

    closed spec fn view(&self) -> (Seq<VideoFormatInfo>, int) {
        (self.formats@, self.index as int)
    }
}

impl FormatChoice {
    #[verifier::type_invariant]
    spec fn inv(self) -> bool {
        self.index < self.formats@.len()
    }

    /// The index of the native media type to select.
    pub fn media_type(&self) -> (media_type: usize)
        ensures
            0 <= self@.1 < self@.0.len(),
            media_type == self@.0[self@.1].media_type,
    {
        proof {
            use_type_invariant(self);
        }
        self.formats[self.index].media_type
    }
}

/// Lists the formats of a webcam and picks the best of them.
pub fn choose_format(natives: &Vec<NativeMediaType>) -> (choice: Result<
    FormatChoice,
    CameraError,
>)
    ensures
        match choice {
            Ok(c) => {
                &&& formats::is_sorted_from(formats::formats_in(natives@), c@.0)
                &&& formats::is_best_format(c@.0, c@.1)
                &&& 0 <= c@.1 < c@.0.len()
            },
            Err(e) => {
                &&& formats::formats_in(natives@).len() == 0
                &&& e@ == CameraErrorView::SdkError(NO_FORMAT)
            },
        },
{
    let list = formats::enumerate_video_formats(natives);
    if list.len() == 0 {
        return Err(CameraError::SdkError(NO_FORMAT));
    }
    let index: usize = formats::select_best_format_index(list.as_slice());
    Ok(FormatChoice { formats: list, index })
}

/// What opening a session asks for next.
#[derive(Debug, PartialEq, Eq)]
pub enum ConnectStep {
    /// Finds the webcam and opens a reader for it.
    OpenReader,
    /// Answers.
    Finish(Result<(), CameraError>),
}

/// How opening a session begins.
pub open spec fn connect_step(
    sessions: Map<Seq<char>, DeviceStateView>,
    native_id: Seq<char>,
) -> ConnectStep {
    if sessions.dom().contains(native_id) {
        ConnectStep::Finish(Ok(()))
    } else {
        ConnectStep::OpenReader
    }
}

/// The sessions and the answer behind the selection of the format that the session begins
/// with.
pub open spec fn selected_run(
    sessions: Map<Seq<char>, DeviceStateView>,
    native_id: Seq<char>,
    state: DeviceStateView,
    selected: Result<(), i32>,
) -> (Map<Seq<char>, DeviceStateView>, Result<(), CameraErrorView>) {
    match selected {
        Ok(_) => (sessions.insert(native_id, state), Ok(())),
        Err(hresult) => (sessions, Err(failed_call(hresult))),
    }
}

/// Opening a session from its first step to its last, of what each step gives: the reader, the
/// choice of the format, with it the session, and the selection of the format.
pub open spec fn connect_run(
    sessions: Map<Seq<char>, DeviceStateView>,
    native_id: Seq<char>,
    reader: Result<(), CameraErrorView>,
    choice: Result<DeviceStateView, CameraErrorView>,
    selected: Result<(), i32>,
) -> (Map<Seq<char>, DeviceStateView>, Result<(), CameraErrorView>) {
    match connect_step(sessions, native_id) {
        ConnectStep::Finish(r) => (sessions, camera::viewed_plain(r)),
        ConnectStep::OpenReader => match reader {
            Err(e) => (sessions, Err(e)),
            Ok(_) => match choice {
                Err(e) => (sessions, Err(e)),
                Ok(state) => selected_run(sessions, native_id, state, selected),
            },
        },
    }
}

// ---------------------------------------------------------------------------
// Frames
// ---------------------------------------------------------------------------

/// What reading a sample for a frame leads to.
#[derive(Debug, PartialEq, Eq)]
pub enum FrameStep {
    /// Reads the next sample.
    ReadSample,
    /// Copies the bytes out of the sample.
    CopySample,
    /// Gives up.
    Fail(CameraError),
}

/// The mathematical content of a [`FrameStep`].
pub enum FrameStepView {
    ReadSample,
    CopySample,
    Fail(CameraErrorView),
}

impl View for FrameStep {
    type V = FrameStepView;

    open spec fn view(&self) -> FrameStepView {
        match *self {
            FrameStep::ReadSample => FrameStepView::ReadSample,
            FrameStep::CopySample => FrameStepView::CopySample,
            FrameStep::Fail(e) => FrameStepView::Fail(e@),
        }
    }
}

/// What reading a sample gave: the flags of the stream and whether there was a sample, or the
/// code of the failed call.
#[derive(Debug, Clone, Copy, PartialEq, Eq)]
pub struct SampleRead {
    pub flags: Result<u32, i32>,
    pub has_sample: bool,
}

/// Whether a sample is passed over: it stands for a gap, or it is missing.
pub open spec fn is_gap(read: SampleRead) -> bool {
    &&& read.flags matches Ok(flags)
    &&& flags & FLAG_ERROR == 0
    &&& flags & FLAG_STREAM_TICK != 0 || !read.has_sample
}

/// What reading a sample leads to, where `left` more may be read.
pub open spec fn sample_step(read: SampleRead, left: nat) -> FrameStepView {
    match read.flags {
        Err(hresult) => FrameStepView::Fail(failed_call(hresult)),
        Ok(flags) => if flags & FLAG_ERROR != 0 {
            FrameStepView::Fail(CameraErrorView::SdkError(STREAM_FAILED))
        } else if !is_gap(read) {
            FrameStepView::CopySample
        } else if left > 0 {
            FrameStepView::ReadSample
        } else {
            FrameStepView::Fail(CameraErrorView::SdkError(NO_FRAME))
        },
    }
}

/// A search for a frame in the samples of a stream.
#[derive(Debug, PartialEq, Eq)]
pub struct FrameSearch {
    /// How many more samples may be read.
    left: u32,
}

impl View for FrameSearch {
    type V = nat;

    closed spec fn view(&self) -> nat {
        self.left as nat
    }
}

impl FrameSearch {
    /// A search that has not read a sample.
    pub fn new() -> (search: Self)
        ensures
            search@ == FRAME_TRIES,
    {
        FrameSearch { left: FRAME_TRIES }
    }

    /// What the next sample leads to.
    pub fn sample_read(&mut self, read: SampleRead) -> (step: FrameStep)
        ensures
            final(self)@ == if old(self)@ > 0 {
                (old(self)@ - 1) as nat
            } else {
                0
            },
            step@ == sample_step(read, final(self)@),
    {
        if self.left > 0 {
            self.left = self.left - 1;
        }
        let flags: u32 = match read.flags {
            Ok(flags) => flags,
            Err(hresult) => {
                return FrameStep::Fail(win_err(hresult));
            },
        };
        if flags & FLAG_ERROR != 0 {
            return FrameStep::Fail(CameraError::SdkError(STREAM_FAILED));
        }
        if flags & FLAG_STREAM_TICK == 0 && read.has_sample {
            return FrameStep::CopySample;
        }
        if self.left > 0 {
            FrameStep::ReadSample
        } else {
            FrameStep::Fail(CameraError::SdkError(NO_FRAME))
        }
    }
}

/// Where a search ends that may read `tries` of the samples `reads`: the number of samples that
/// it read and the step behind the last of them.
pub open spec fn search_run(reads: Seq<SampleRead>, tries: nat) -> (nat, FrameStepView)
    decreases tries,
{
    if tries == 0 || reads.len() == 0 {
        (0, FrameStepView::ReadSample)
    } else {
        match sample_step(reads[0], (tries - 1) as nat) {
            FrameStepView::ReadSample => {
                let (n, last) = search_run(reads.skip(1), (tries - 1) as nat);
                (n + 1, last)
            },
            last => (1, last),
        }
    }
}

/// A search ends at the first sample that is no gap, with what that sample leads to.
pub proof fn search_ends_at_the_first_frame(reads: Seq<SampleRead>, tries: nat, n: int)
    requires
        0 <= n < reads.len(),
        n < tries,
        forall|i: int| 0 <= i < n ==> is_gap(#[trigger] reads[i]),
        !is_gap(reads[n]),
    ensures
        search_run(reads, tries) == ((n + 1) as nat, sample_step(reads[n], 0)),
    decreases n,
{
    if n > 0 {
        assert(is_gap(reads[0]));
        let rest = reads.skip(1);
        assert(rest[n - 1] == reads[n]);
        search_ends_at_the_first_frame(rest, (tries - 1) as nat, n - 1);
    }
}

/// A search that meets nothing but gaps reads as many samples as it may, and fails.
pub proof fn search_gives_up(reads: Seq<SampleRead>, tries: nat)
    requires
        0 < tries <= reads.len(),
        forall|i: int| 0 <= i < tries ==> is_gap(#[trigger] reads[i]),
    ensures
        search_run(reads, tries) == (
            tries,
            FrameStepView::Fail(CameraErrorView::SdkError(NO_FRAME)),
        ),
    decreases tries,
{
    assert(is_gap(reads[0]));
    if tries > 1 {
        search_gives_up(reads.skip(1), (tries - 1) as nat);
    }
}

// ---------------------------------------------------------------------------
// Backend
// ---------------------------------------------------------------------------

/// The session of a device.
pub open spec fn session_of(
    sessions: Map<Seq<char>, DeviceStateView>,
    native_id: Seq<char>,
) -> Result<DeviceStateView, CameraErrorView> {
    if sessions.dom().contains(native_id) {
        Ok(sessions[native_id])
    } else {
        Err(CameraErrorView::NotConnected)
    }
}

/// What setting a parameter of a device asks for.
pub open spec fn requested_step(
    sessions: Map<Seq<char>, DeviceStateView>,
    native_id: Seq<char>,
    param_type: ParameterType,
    value: Seq<char>,
) -> Result<SetStep, CameraErrorView> {
    match session_of(sessions, native_id) {
        Err(e) => Err(e),
        Ok(state) => match parameters::set_step(
            state.interfaces,
            state.formats.len(),
            param_type,
            value,
        ) {
            SetStep::Unsupported => Err(CameraErrorView::NotSupported),
            step => Ok(step),
        },
    }
}

/// The sessions and the answer behind the call with which a parameter is set.
pub open spec fn set_run(
    sessions: Map<Seq<char>, DeviceStateView>,
    native_id: Seq<char>,
    param_type: ParameterType,
    value: Seq<char>,
    done: Result<(), i32>,
) -> (Map<Seq<char>, DeviceStateView>, Result<(), CameraErrorView>) {
    match requested_step(sessions, native_id, param_type, value) {
        Err(e) => (sessions, Err(e)),
        Ok(step) => match done {
            Err(hresult) => (sessions, Err(failed_call(hresult))),
            Ok(_) => match step {
                SetStep::SetFormat { index } => {
                    let state = DeviceStateView { current: index as int, ..sessions[native_id] };
                    (sessions.insert(native_id, state), Ok(()))
                },
                _ => (sessions, Ok(())),
            },
        },
    }
}

/// What becomes of the bytes of a sample: they are a JPEG file already, or a YUY2 frame.
pub open spec fn frame_of(
    format: VideoFormatInfo,
    copied: Result<Seq<u8>, i32>,
) -> Result<Seq<u8>, CameraErrorView> {
    match copied {
        Err(hresult) => Err(failed_call(hresult)),
        Ok(data) => if format.is_mjpeg {
            Ok(data)
        } else {
            yuyv::yuyv_jpeg(data, format.width, format.height)
        },
    }
}

/// The bytes of a sample by their view.
pub open spec fn copied_view(copied: Result<Vec<u8>, i32>) -> Result<Seq<u8>, i32> {
    match copied {
        Ok(data) => Ok(data@),
        Err(hresult) => Err(hresult),
    }
}

impl WebcamWindowsBackend {
    /// A backend without sessions, where its SDK thread started; `None` stands for a thread that
    /// never answered.
    pub fn new(started: Option<Result<(), i32>>) -> (backend: Result<Self, CameraError>)
        ensures
            match backend {
                Ok(b) => started matches Some(Ok(_)) && b@ == Map::<
                    Seq<char>,
                    DeviceStateView,
                >::empty(),
                Err(e) => match started {
                    Some(Ok(_)) => false,
                    Some(Err(hresult)) => e@ == failed_call(hresult),
                    None => e@ == CameraErrorView::SdkError(actor::THREAD_LOST),
                },
            },
    {
        match started {
            Some(Ok(_)) => {
                let backend = WebcamWindowsBackend { sessions: SessionTable::new() };
                assert(backend@ =~= Map::<Seq<char>, DeviceStateView>::empty());
                Ok(backend)
            },
            Some(Err(hresult)) => Err(win_err(hresult)),
            None => Err(CameraError::SdkError(actor::THREAD_LOST)),
        }
    }

    pub fn backend_id(&self) -> (id: &str)
        ensures
            id@ == "webcam-windows"@,
    {
        "webcam-windows"
    }

    pub fn is_connected(&self, native_id: &str) -> (yes: bool)
        ensures
            yes == self@.dom().contains(native_id@),
    {
        self.sessions.contains(native_id)
    }

    /// The session of a device.
    pub fn session(&self, native_id: &str) -> (state: Result<&DeviceState, CameraError>)
        ensures
            match state {
                Ok(s) => session_of(self@, native_id@) == Ok::<DeviceStateView, CameraErrorView>(
                    s@,
                ),
                Err(e) => session_of(self@, native_id@) == Err::<DeviceStateView, CameraErrorView>(
                    e@,
                ),
            },
    {
        match self.sessions.get(native_id) {
            Some(state) => Ok(state),
            None => Err(CameraError::NotConnected),
        }
    }

    /// The webcams in the list of sources, or the error with which the list could not be had.
    pub fn list_devices(&self, sources: Result<Vec<Option<WebcamSource>>, i32>) -> (devices: Result<
        Vec<DeviceInfo>,
        CameraError,
    >)
        ensures
            match sources {
                Ok(s) => devices matches Ok(d) && d@.map_values(|i: DeviceInfo| i@) == devices_in(
                    self@,
                    s@,
                ),
                Err(hresult) => devices matches Err(e) && e@ == failed_call(hresult),
            },
    {
        let sources = match sources {
            Ok(sources) => sources,
            Err(hresult) => {
                return Err(win_err(hresult));
            },
        };
        let mut devices: Vec<DeviceInfo> = Vec::new();
        let mut i: usize = 0;
        assert(sources@.take(0) =~= Seq::empty());
        assert(devices@.map_values(|i: DeviceInfo| i@) =~= devices_in(self@, sources@.take(0)));
        while i < sources.len()
            invariant
                i <= sources@.len(),
                devices@.map_values(|i: DeviceInfo| i@) == devices_in(
                    self@,
                    sources@.take(i as int),
                ),
            decreases sources@.len() - i,
        {
            assert(sources@.take(i + 1).drop_last() =~= sources@.take(i as int));
            let ghost before = devices@;
            if let Some(device) = self.device(&sources[i]) {
                devices.push(device);
                assert(devices@.map_values(|i: DeviceInfo| i@) =~= before.map_values(
                    |i: DeviceInfo| i@,
                ).push(device@));
            }
            i += 1;
        }
        assert(sources@.take(i as int) =~= sources@);
        Ok(devices)
    }

    fn device(&self, source: &Option<WebcamSource>) -> (device: Option<DeviceInfo>)
        ensures
            device_in(self@, *source) == match device {
                Some(d) => Some(d@),
                None => None,
            },
    {
        let source = match source {
            Some(source) => source,
            None => {
                return None;
            },
        };
        let link = match &source.symbolic_link {
            Some(link) => link,
            None => {
                return None;
            },
        };
        if text::same_text(link.as_str(), "") {
            proof {
                reveal_strlit("");
            }
            return None;
        }
        proof {
            reveal_strlit("");
            assert(link@.len() == 0 ==> link@ =~= ""@);
        }
        let name = match &source.name {
            Some(name) => name.clone(),
            None => "Unknown".to_owned(),
        };
        let id = DeviceId::new("webcam-windows", link.as_str()).encode();
        let connected = self.sessions.contains(link.as_str());
        Some(DeviceInfo { id, name, connected })
    }

    /// Begins to open a session; where one is open already there is nothing to do.
    pub fn connect(&self, native_id: &str) -> (step: ConnectStep)
        ensures
            step == connect_step(self@, native_id@),
    {
        if self.sessions.contains(native_id) {
            ConnectStep::Finish(Ok(()))
        } else {
            ConnectStep::OpenReader
        }
    }

    /// What the selection of the format that the session begins with leads to.
    pub fn format_selected(
        &mut self,
        native_id: &str,
        source: SourceRef,
        interfaces: Interfaces,
        choice: FormatChoice,
        selected: Result<(), i32>,
    ) -> (r: Result<(), CameraError>)
        ensures
            (final(self)@, camera::viewed_plain(r)) == selected_run(
                old(self)@,
                native_id@,
                DeviceStateView { source, interfaces, formats: choice@.0, current: choice@.1 },
                selected,
            ),
    {
        if let Err(hresult) = selected {
            return Err(win_err(hresult));
        }
        proof {
            use_type_invariant(&choice);
        }
        let state = DeviceState::new(source, interfaces, choice.formats, choice.index);
        proof {
            lemma_insert(self.sessions@, native_id@, state);
        }
        self.sessions.insert(native_id, state);
        Ok(())
    }

    /// Takes the session of a device out; its source is to be shut down.
    pub fn disconnect(&mut self, native_id: &str) -> (source: Result<SourceRef, CameraError>)
        ensures
            final(self)@ == old(self)@.remove(native_id@),
            (sources_of(final(self)@), camera::viewed_plain(source)) == actor::disconnect_turn(
                sources_of(old(self)@),
                native_id@,
            ),
    {
        proof {
            lemma_remove(self.sessions@, native_id@);
            assert(sources_of(self@.remove(native_id@)) =~= sources_of(self@).remove(native_id@));
            assert(!self@.dom().contains(native_id@) ==> self@.remove(native_id@) =~= self@);
        }
        match self.sessions.remove(native_id) {
            Some(state) => Ok(state.source),
            None => Err(CameraError::DeviceNotFound(native_id.to_owned())),
        }
    }

    /// The parameters of a device, of what was read from it.
    pub fn get_parameters(&self, native_id: &str, readings: &WebcamReadings) -> (parameters: Result<
        Vec<WebcamParameter>,
        CameraError,
    >)
        ensures
            match session_of(self@, native_id@) {
                Ok(state) => parameters matches Ok(p) && parameters::parameters_view(p@)
                    == parameters::offered_parameters(state.formats, state.current, *readings),
                Err(e) => parameters matches Err(f) && f@ == e,
            },
    {
        match self.session(native_id) {
            Ok(state) => Ok(
                parameters::offered(state.formats(), state.current_format_idx(), readings),
            ),
            Err(e) => Err(e),
        }
    }

    /// Begins to set a parameter of a device.
    pub fn set_parameter(
        &self,
        native_id: &str,
        param_type: ParameterType,
        value: &str,
    ) -> (step: Result<SetStep, CameraError>)
        ensures
            camera::viewed_plain(step) == requested_step(
                self@,
                native_id@,
                param_type,
                value@,
            ),
    {
        match self.session(native_id) {
            Err(e) => Err(e),
            Ok(state) => match parameters::set_parameter_step(
                state.interfaces(),
                state.formats().len(),
                param_type,
                value,
            ) {
                SetStep::Unsupported => Err(CameraError::NotSupported),
                step => Ok(step),
            },
        }
    }

    /// Ends to set a parameter of a device, of what the call gave that it asked for.
    pub fn parameter_set(
        &mut self,
        native_id: &str,
        param_type: ParameterType,
        value: &str,
        done: Result<(), i32>,
    ) -> (r: Result<(), CameraError>)
        ensures
            (final(self)@, camera::viewed_plain(r)) == set_run(
                old(self)@,
                native_id@,
                param_type,
                value@,
                done,
            ),
    {
        let step = match self.set_parameter(native_id, param_type, value) {
            Ok(step) => step,
            Err(e) => {
                return Err(e);
            },
        };
        if let Err(hresult) = done {
            return Err(win_err(hresult));
        }
        if let SetStep::SetFormat { index } = step {
            let ghost before = self@;
            proof {
                lemma_remove(self.sessions@, native_id@);
            }
            if let Some(state) = self.sessions.remove(native_id) {
                let state = state.switched(index);
                proof {
                    lemma_insert(self.sessions@, native_id@, state);
                    assert(before.remove(native_id@).insert(native_id@, state@) =~= before.insert(
                        native_id@,
                        state@,
                    ));
                }
                self.sessions.insert(native_id, state);
            }
        }
        Ok(())
    }

    /// Begins to capture a frame from a device.
    pub fn get_live_view_frame(&self, native_id: &str) -> (search: Result<FrameSearch, CameraError>)
        ensures
            match session_of(self@, native_id@) {
                Ok(_) => search matches Ok(s) && s@ == FRAME_TRIES,
                Err(e) => search matches Err(f) && f@ == e,
            },
    {
        match self.session(native_id) {
            Ok(_) => Ok(FrameSearch::new()),
            Err(e) => Err(e),
        }
    }

    /// Ends to capture a frame from a device, of the bytes that were copied out of its sample.
    pub fn frame_copied(&self, native_id: &str, copied: Result<Vec<u8>, i32>) -> (frame: Result<
        Vec<u8>,
        CameraError,
    >)
        requires
            session_of(self@, native_id@) matches Ok(state) ==> copied matches Ok(data) ==> {
                ||| state.format().is_mjpeg
                ||| yuyv::frame_fits(data@, state.format().width, state.format().height)
            },
        ensures
            camera::viewed(frame) == match session_of(self@, native_id@) {
                Ok(state) => frame_of(state.format(), copied_view(copied)),
                Err(e) => Err(e),
            },
    {
        let state = match self.session(native_id) {
            Ok(state) => state,
            Err(e) => {
                return Err(e);
            },
        };
        let data = match copied {
            Ok(data) => data,
            Err(hresult) => {
                return Err(win_err(hresult));
            },
        };
        if state.is_mjpeg() {
            return Ok(data);
        }
        let (width, height) = state.size();
        yuyv::yuyv_to_jpeg(data.as_slice(), width, height)
    }

    /// Ends the backend; the sources of all open sessions are to be shut down.
    pub fn shut_down(self) -> (open: Vec<(String, DeviceState)>)
        ensures
            sessions::distinct_devices(open@),
            sessions_view(sessions::entry_map(open@)) == self@,
    {
        self.sessions.into_entries()
    }
}

// ---------------------------------------------------------------------------
// Laws
// ---------------------------------------------------------------------------

/// Connecting a connected device changes nothing and asks nothing of the SDK.
pub proof fn connect_is_idempotent(
    sessions: Map<Seq<char>, DeviceStateView>,
    native_id: Seq<char>,
    reader: Result<(), CameraErrorView>,
    choice: Result<DeviceStateView, CameraErrorView>,
    selected: Result<(), i32>,
)
    requires
        sessions.dom().contains(native_id),
    ensures
        connect_step(sessions, native_id) is Finish,
        connect_run(sessions, native_id, reader, choice, selected) == (
            sessions,
            Ok::<(), CameraErrorView>(()),
        ),
{
}

/// Connecting a device succeeds exactly where it is connected behind it, fails with the
/// sessions as they were, and never touches those of other devices.
pub proof fn connect_opens_one_session(
    sessions: Map<Seq<char>, DeviceStateView>,
    native_id: Seq<char>,
    reader: Result<(), CameraErrorView>,
    choice: Result<DeviceStateView, CameraErrorView>,
    selected: Result<(), i32>,
)
    ensures
        ({
            let (after, r) = connect_run(sessions, native_id, reader, choice, selected);
            &&& r is Ok <==> after.dom().contains(native_id)
            &&& r is Err ==> after == sessions
            &&& after.remove(native_id) == sessions.remove(native_id)
        }),
{
    let (after, r) = connect_run(sessions, native_id, reader, choice, selected);
    assert(after.remove(native_id) =~= sessions.remove(native_id));
}

/// What opening a session gives, of what each step gives.
pub open spec fn opening(
    reader: Result<(), CameraErrorView>,
    choice: Result<DeviceStateView, CameraErrorView>,
    selected: Result<(), i32>,
) -> Result<SourceRef, CameraErrorView> {
    match (reader, choice, selected) {
        (Err(e), _, _) => Err(e),
        (Ok(_), Err(e), _) => Err(e),
        (Ok(_), Ok(_), Err(hresult)) => Err(failed_call(hresult)),
        (Ok(_), Ok(state), Ok(_)) => Ok(state.source),
    }
}

/// Connecting a device is the turn of a backend thread that serves the command, and so all that
/// holds of the run of such a thread holds here.
pub proof fn connect_is_a_turn_of_the_thread(
    sessions: Map<Seq<char>, DeviceStateView>,
    native_id: Seq<char>,
    reader: Result<(), CameraErrorView>,
    choice: Result<DeviceStateView, CameraErrorView>,
    selected: Result<(), i32>,
)
    ensures
        ({
            let (after, r) = connect_run(sessions, native_id, reader, choice, selected);
            (sources_of(after), r) == actor::connect_turn(
                sources_of(sessions),
                native_id,
                opening(reader, choice, selected),
            )
        }),
{
    if let Ok(state) = choice {
        assert(sources_of(sessions.insert(native_id, state)) =~= sources_of(sessions).insert(
            native_id,
            state.source,
        ));
    }
}

/// Setting a parameter opens and closes no session.
pub proof fn setting_keeps_the_sources(
    sessions: Map<Seq<char>, DeviceStateView>,
    native_id: Seq<char>,
    param_type: ParameterType,
    value: Seq<char>,
    done: Result<(), i32>,
)
    ensures
        sources_of(set_run(sessions, native_id, param_type, value, done).0) == sources_of(sessions),
{
    let after = set_run(sessions, native_id, param_type, value, done).0;
    assert(sources_of(after) =~= sources_of(sessions));
}

/// The sources of the sessions that the backend ends with, each device once.
pub proof fn ended_sessions_have_their_sources(open: Seq<(String, DeviceState)>)
    requires
        sessions::distinct_devices(open),
    ensures
        ({
            let sources = open.map_values(|e: (String, DeviceState)| (e.0, e.1@.source));
            &&& sessions::distinct_devices(sources)
            &&& sessions::entry_map(sources) == sources_of(
                sessions_view(sessions::entry_map(open)),
            )
        }),
{
    let sources = open.map_values(|e: (String, DeviceState)| (e.0, e.1@.source));
    let there = sessions::entry_map(sources);
    let here = sources_of(sessions_view(sessions::entry_map(open)));
    assert forall|i: int, j: int| 0 <= i < j < sources.len() implies #[trigger] sources[i].0@
        != #[trigger] sources[j].0@ by {
        assert(open[i].0@ != open[j].0@);
    }
    assert forall|i: int, d: Seq<char>| #[trigger] sessions::entry_is(sources, i, d)
        == sessions::entry_is(open, i, d) by {}
    assert forall|d: Seq<char>| #[trigger] there.dom().contains(d) == here.dom().contains(d) by {
        if there.dom().contains(d) {
            let i = choose|i: int| #[trigger] sessions::entry_is(sources, i, d);
            assert(sessions::entry_is(open, i, d));
        }
        if here.dom().contains(d) {
            let i = choose|i: int| #[trigger] sessions::entry_is(open, i, d);
            assert(sessions::entry_is(sources, i, d));
        }
    }
    assert forall|d: Seq<char>| #[trigger] there.dom().contains(d) implies there[d] == here[d] by {
        let i = choose|i: int| #[trigger] sessions::entry_is(sources, i, d);
        assert(sessions::entry_is(open, i, d));
        let k = choose|k: int| #[trigger] sessions::entry_is(open, k, d);
        assert(sessions::entry_is(sources, k, d));
        if i < k {
            assert(open[i].0@ != open[k].0@);
        }
        if k < i {
            assert(open[k].0@ != open[i].0@);
        }
    }
    assert(there =~= here);
}

/// Disconnecting a device that was just connected hands out its source and leaves the sessions
/// as they were before.
pub proof fn disconnect_undoes_connect(
    sessions: Map<Seq<char>, DeviceStateView>,
    native_id: Seq<char>,
    state: DeviceStateView,
)
    requires
        !sessions.dom().contains(native_id),
    ensures
        ({
            let (after, r) = connect_run(sessions, native_id, Ok(()), Ok(state), Ok(()));
            &&& r is Ok
            &&& after[native_id].source == state.source
            &&& after.remove(native_id) == sessions
        }),
{
    let (after, r) = connect_run(sessions, native_id, Ok(()), Ok(state), Ok(()));
    assert(after.remove(native_id) =~= sessions);
}

/// Setting a parameter changes at most which format of the device is current. It does so only
/// where it sets the format and succeeds, and then to a format that the device has.
pub proof fn setting_changes_only_the_format(
    sessions: Map<Seq<char>, DeviceStateView>,
    native_id: Seq<char>,
    param_type: ParameterType,
    value: Seq<char>,
    done: Result<(), i32>,
)
    ensures
        ({
            let (after, r) = set_run(sessions, native_id, param_type, value, done);
            &&& after.remove(native_id) == sessions.remove(native_id)
            &&& after.dom() == sessions.dom()
            &&& after != sessions ==> param_type == ParameterType::VideoFormat && r is Ok
            &&& sessions.dom().contains(native_id) ==> {
                let before = sessions[native_id];
                &&& after[native_id] == (DeviceStateView {
                    current: after[native_id].current,
                    ..before
                })
                &&& 0 <= before.current < before.formats.len() ==> 0 <= after[native_id].current
                    < before.formats.len()
            }
        }),
{
    let (after, r) = set_run(sessions, native_id, param_type, value, done);
    assert(after.remove(native_id) =~= sessions.remove(native_id));
    assert(after.dom() =~= sessions.dom());
}

/// The choice of a format that is offered makes it the current one.
pub proof fn an_offered_format_becomes_the_current_one(
    sessions: Map<Seq<char>, DeviceStateView>,
    native_id: Seq<char>,
    i: int,
)
    requires
        sessions.dom().contains(native_id),
        0 <= i < sessions[native_id].formats.len() <= usize::MAX,
    ensures
        ({
            let option = parameters::format_options(sessions[native_id].formats)[i];
            let (after, r) = set_run(
                sessions,
                native_id,
                ParameterType::VideoFormat,
                option.value,
                Ok(()),
            );
            &&& r is Ok
            &&& after[native_id].current == i
        }),
{
    parameters::offered_formats_can_be_set(
        sessions[native_id].interfaces,
        sessions[native_id].formats,
        i,
    );
}

/// A failed call is told by its code, whose bits are read as an unsigned number.
pub proof fn a_failed_call_is_told_by_its_code(hresult: i32)
    ensures
        failed_call(hresult) matches CameraErrorView::SdkError(code) && (if hresult < 0 {
            code == hresult + 0x1_0000_0000
        } else {
            code == hresult
        }),
{
}

/// Webcams are listed in the order of the sources. One more source adds a webcam where it has a
/// symbolic link that is not empty, under its own name or a stand-in, by that link, and as
/// connected exactly where a session is open for it.
pub proof fn each_linked_webcam_is_listed(
    sessions: Map<Seq<char>, DeviceStateView>,
    sources: Seq<Option<WebcamSource>>,
    source: Option<WebcamSource>,
)
    ensures
        devices_in(sessions, Seq::empty()) == Seq::<DeviceInfoView>::empty(),
        ({
            let before = devices_in(sessions, sources);
            let after = devices_in(sessions, sources.push(source));
            if source is Some && source->Some_0.symbolic_link is Some
                && source->Some_0.symbolic_link->Some_0@.len() > 0 {
                let link = source->Some_0.symbolic_link->Some_0@;
                let added = after[before.len() as int];
                &&& after.len() == before.len() + 1
                &&& after.take(before.len() as int) == before
                &&& added.id == camera::encoded_id("webcam-windows"@, link)
                &&& source->Some_0.name matches Some(name) ==> added.name == name@
                &&& source->Some_0.name is None ==> added.name == "Unknown"@
                &&& added.connected <==> sessions.dom().contains(link)
            } else {
                after == before
            }
        }),
{
    assert(devices_in(sessions, Seq::empty()) =~= Seq::<DeviceInfoView>::empty());
    assert(sources.push(source).drop_last() =~= sources);
    let before = devices_in(sessions, sources);
    let after = devices_in(sessions, sources.push(source));
    assert(after.take(before.len() as int) =~= before);
}

/// A webcam is found by its symbolic link, character by character.
pub proof fn a_webcam_is_found_by_its_link(source: Option<WebcamSource>, native_id: Seq<char>)
    ensures
        is_linked(source, native_id) <==> source is Some && source->Some_0.symbolic_link is Some
            && source->Some_0.symbolic_link->Some_0@ == native_id,
{
}

/// A sample is copied unless it stands for a gap or is missing. Gaps are passed over while more
/// samples may be read, and are an error behind the last of ten; an error of the stream and a
/// failed call end the search at once.
pub proof fn the_first_sample_with_a_frame_is_copied(read: SampleRead, left: nat)
    ensures
        FRAME_TRIES == 10,
        match read.flags {
            Err(hresult) => sample_step(read, left) == FrameStepView::Fail(failed_call(hresult)),
            Ok(flags) => {
                let step = sample_step(read, left);
                let broken = flags & 1u32 != 0;
                let tick = flags & 0x100u32 != 0;
                &&& broken ==> step == FrameStepView::Fail(CameraErrorView::SdkError(0xA102_0001))
                &&& !broken && !tick && read.has_sample ==> step == FrameStepView::CopySample
                &&& !broken && (tick || !read.has_sample) && left > 0 ==> step
                    == FrameStepView::ReadSample
                &&& !broken && (tick || !read.has_sample) && left == 0 ==> step
                    == FrameStepView::Fail(CameraErrorView::SdkError(0xA102_0002))
            },
        },
{
}

/// A session is had where one is open, and a device without one is not connected.
pub proof fn only_connected_devices_have_a_session(
    sessions: Map<Seq<char>, DeviceStateView>,
    native_id: Seq<char>,
)
    ensures
        sessions.dom().contains(native_id) ==> session_of(sessions, native_id) == Ok::<
            DeviceStateView,
            CameraErrorView,
        >(sessions[native_id]),
        !sessions.dom().contains(native_id) ==> session_of(sessions, native_id) == Err::<
            DeviceStateView,
            CameraErrorView,
        >(CameraErrorView::NotConnected),
{
}

/// A session that was opened has the source, the interfaces, the formats and the format that it
/// was opened with; the selection that failed is answered by its code.
pub proof fn a_new_session_is_as_it_was_opened(
    sessions: Map<Seq<char>, DeviceStateView>,
    native_id: Seq<char>,
    state: DeviceStateView,
    selected: Result<(), i32>,
)
    ensures
        ({
            let (after, r) = selected_run(sessions, native_id, state, selected);
            &&& selected is Ok ==> r is Ok && after == sessions.insert(native_id, state)
            &&& selected matches Err(hresult) ==> after == sessions && r == Err::<
                (),
                CameraErrorView,
            >(failed_call(hresult))
        }),
        state.format() == state.formats[state.current],
{
}

/// Setting a parameter is answered in this order: a device without a session is not connected, a
/// parameter or value that cannot be set is not supported, and a call that fails is told by its
/// code. Otherwise it succeeds, and only a format that is set becomes another current format.
pub proof fn setting_is_answered_by_what_goes_wrong_first(
    sessions: Map<Seq<char>, DeviceStateView>,
    native_id: Seq<char>,
    param_type: ParameterType,
    value: Seq<char>,
    done: Result<(), i32>,
)
    ensures
        ({
            let (after, r) = set_run(sessions, native_id, param_type, value, done);
            let state = sessions[native_id];
            let step = parameters::set_step(
                state.interfaces,
                state.formats.len(),
                param_type,
                value,
            );
            let requested = requested_step(sessions, native_id, param_type, value);
            if !sessions.dom().contains(native_id) {
                &&& requested == Err::<SetStep, CameraErrorView>(CameraErrorView::NotConnected)
                &&& r == Err::<(), CameraErrorView>(CameraErrorView::NotConnected)
                &&& after == sessions
            } else if step is Unsupported {
                &&& requested == Err::<SetStep, CameraErrorView>(CameraErrorView::NotSupported)
                &&& r == Err::<(), CameraErrorView>(CameraErrorView::NotSupported)
                &&& after == sessions
            } else {
                &&& requested == Ok::<SetStep, CameraErrorView>(step)
                &&& done matches Err(hresult) ==> r == Err::<(), CameraErrorView>(
                    failed_call(hresult),
                ) && after == sessions
                &&& done is Ok ==> {
                    &&& r is Ok
                    &&& after.dom() == sessions.dom()
                    &&& step matches SetStep::SetFormat { index } ==> after[native_id].current
                        == index
                    &&& !(step is SetFormat) ==> after == sessions
                }
            }
        }),
{
    let after = set_run(sessions, native_id, param_type, value, done).0;
    if sessions.dom().contains(native_id) {
        assert(after.dom() =~= sessions.dom());
    }
}

/// A frame in a MJPEG format is the bytes that were copied, and one in another format is the file
/// of its pixels; a copy that failed is told by its code.
pub proof fn a_frame_is_what_its_format_makes_of_the_bytes(
    format: VideoFormatInfo,
    copied: Result<Seq<u8>, i32>,
)
    ensures
        match copied {
            Err(hresult) => frame_of(format, copied) == Err::<Seq<u8>, CameraErrorView>(
                failed_call(hresult),
            ),
            Ok(data) => {
                &&& format.is_mjpeg ==> frame_of(format, copied) == Ok::<Seq<u8>, CameraErrorView>(
                    data,
                )
                &&& !format.is_mjpeg ==> frame_of(format, copied) == yuyv::yuyv_jpeg(
                    data,
                    format.width,
                    format.height,
                )
            },
        },
{
}

/// Samples, steps and sessions are compared by what they hold.
pub proof fn answers_are_seen_by_what_they_hold(
    data: Vec<u8>,
    hresult: i32,
    e: CameraError,
    sessions: Map<Seq<char>, DeviceState>,
    device: Seq<char>,
)
    ensures
        copied_view(Ok(data)) == Ok::<Seq<u8>, i32>(data@),
        copied_view(Err(hresult)) == Err::<Seq<u8>, i32>(hresult),
        FrameStep::ReadSample@ is ReadSample,
        FrameStep::CopySample@ is CopySample,
        FrameStep::Fail(e)@ == FrameStepView::Fail(e@),
        sessions_view(sessions).dom().contains(device) == sessions.dom().contains(device),
        sessions.dom().contains(device) ==> sessions_view(sessions)[device] == sessions[device]@,
{
}

}
