//! How frames are taken out of a DirectShow filter graph, for a photo and for a session.

use crate::camera::directshow::calls::{DirectShowCall, Fetch, FetchStatus};
use crate::camera::directshow::dib;
use crate::camera::indexed;
use crate::camera::{CameraError, CameraErrorView};
use vstd::prelude::*;

verus! {

/// How long a graph runs before a photo is taken from it, in milliseconds.
pub const WARM_UP_MS: u64 = 350;

/// How long a session pauses between two frames, in milliseconds.
pub const FRAME_PAUSE_MS: u64 = 150;

/// What a call gave, or whether a session is told to stop. A failed call comes with its message.
#[derive(Debug, PartialEq, Eq)]
pub enum GraphEvent {
    Created(Result<(), String>),
    SourceAdded(Result<(), String>),
    PinsEnumerated(Result<(), String>),
    PinFetched(Fetch),
    /// Whether the pin is an output.
    DirectionRead(Result<bool, String>),
    Rendered(Result<(), String>),
    MediaControlCast(Result<(), String>),
    Ran(Result<(), String>),
    BasicVideoCast(Result<(), String>),
    /// The bytes of the frame.
    SizeRead(Result<i32, String>),
    /// The frame, as a bitmap.
    DataRead(Result<Vec<u8>, String>),
    StopChecked(bool),
}

/// What taking a photo asks for next.
#[derive(Debug, PartialEq, Eq)]
pub enum PhotoStep {
    Call(DirectShowCall),
    /// Hides the window of the graph, then makes the call.
    HideAndCall(DirectShowCall),
    /// Hides the window of the graph, waits for [`WARM_UP_MS`], then makes the call.
    HideWaitAndCall(DirectShowCall),
    /// Reads the frame into a buffer of so many words of four bytes.
    ReadImage { words: usize },
    /// Stops the graph and encodes the frame.
    StopAndEncode,
    Fail(CameraError),
    /// Stops the graph and fails.
    StopAndFail(CameraError),
}

/// The mathematical content of a [`PhotoStep`].
pub enum PhotoStepView {
    Call(DirectShowCall),
    HideAndCall(DirectShowCall),
    HideWaitAndCall(DirectShowCall),
    ReadImage { words: usize },
    StopAndEncode,
    Fail(CameraErrorView),
    StopAndFail(CameraErrorView),
}

impl View for PhotoStep {
    type V = PhotoStepView;

    open spec fn view(&self) -> PhotoStepView {
        match *self {
            PhotoStep::Call(call) => PhotoStepView::Call(call),
            PhotoStep::HideAndCall(call) => PhotoStepView::HideAndCall(call),
            PhotoStep::HideWaitAndCall(call) => PhotoStepView::HideWaitAndCall(call),
            PhotoStep::ReadImage { words } => PhotoStepView::ReadImage { words },
            PhotoStep::StopAndEncode => PhotoStepView::StopAndEncode,
            PhotoStep::Fail(e) => PhotoStepView::Fail(e@),
            PhotoStep::StopAndFail(e) => PhotoStepView::StopAndFail(e@),
        }
    }
}

/// What a session asks for next.
#[derive(Debug, Clone, Copy, PartialEq, Eq, Structural)]
pub enum StreamStep {
    Call(DirectShowCall),
    /// Hides the window of the graph, then makes the call.
    HideAndCall(DirectShowCall),
    /// Hides the window of the graph, then looks whether the session is told to stop.
    HideAndCheckStop,
    /// Waits for [`FRAME_PAUSE_MS`], then looks whether the session is told to stop.
    PauseAndCheckStop,
    /// Reads the frame into a buffer of so many words of four bytes.
    ReadImage { words: usize },
    /// Encodes the frame and keeps what [`indexed::kept_frame`] makes of it, then goes on as with
    /// [`StreamStep::PauseAndCheckStop`].
    Encode,
    End,
    /// Stops the graph and ends.
    StopAndEnd,
}

/// How many words of four bytes hold `size` bytes.
pub open spec fn words_for(size: i32) -> usize {
    ((size + 3) / 4) as usize
}

/// The number of words of four bytes that hold `size` bytes.
pub fn image_words(size: i32) -> (words: usize)
    requires
        size > 0,
    ensures
        words == words_for(size),
{
    ((size as i64 + 3) / 4) as usize
}

// ---------------------------------------------------------------------------
// Photos
// ---------------------------------------------------------------------------

/// The call behind a failed event and its message.
pub open spec fn failed_event(event: GraphEvent) -> Option<(DirectShowCall, Seq<char>)> {
    match event {
        GraphEvent::Created(Err(d)) => Some((DirectShowCall::CreateGraph, d@)),
        GraphEvent::SourceAdded(Err(d)) => Some((DirectShowCall::AddSource, d@)),
        GraphEvent::PinsEnumerated(Err(d)) => Some((DirectShowCall::EnumPins, d@)),
        GraphEvent::PinFetched(fetch) => match fetch.status {
            FetchStatus::Failed(d) if fetch.fetched > 0 => Some((DirectShowCall::NextPin, d@)),
            _ => None,
        },
        GraphEvent::DirectionRead(Err(d)) => Some((DirectShowCall::QueryDirection, d@)),
        GraphEvent::Rendered(Err(d)) => Some((DirectShowCall::Render, d@)),
        GraphEvent::MediaControlCast(Err(d)) => Some((DirectShowCall::MediaControl, d@)),
        GraphEvent::Ran(Err(d)) => Some((DirectShowCall::Run, d@)),
        GraphEvent::BasicVideoCast(Err(d)) => Some((DirectShowCall::BasicVideo, d@)),
        GraphEvent::SizeRead(Err(d)) => Some((DirectShowCall::ImageSize, d@)),
        GraphEvent::DataRead(Err(d)) => Some((DirectShowCall::ImageData, d@)),
        _ => None,
    }
}

/// Whether the enumerator has no more pins.
pub open spec fn no_more_pins(fetch: Fetch) -> bool {
    fetch.status is Exhausted || fetch.fetched == 0
}

/// What an event that did not fail leads to on the way to a photo. A photo is never told to
/// stop; being asked whether it is, it begins.
pub open spec fn photo_progress(event: GraphEvent) -> PhotoStepView {
    match event {
        GraphEvent::Created(_) => PhotoStepView::Call(DirectShowCall::AddSource),
        GraphEvent::SourceAdded(_) => PhotoStepView::Call(DirectShowCall::EnumPins),
        GraphEvent::PinsEnumerated(_) => PhotoStepView::Call(DirectShowCall::NextPin),
        GraphEvent::PinFetched(fetch) => if no_more_pins(fetch) {
            PhotoStepView::Fail(
                CameraErrorView::BackendFailure("no output pin found for directshow device"@),
            )
        } else if fetch.has_item {
            PhotoStepView::Call(DirectShowCall::QueryDirection)
        } else {
            PhotoStepView::Call(DirectShowCall::NextPin)
        },
        GraphEvent::DirectionRead(output) => if output == Ok::<bool, String>(true) {
            PhotoStepView::Call(DirectShowCall::Render)
        } else {
            PhotoStepView::Call(DirectShowCall::NextPin)
        },
        GraphEvent::Rendered(_) => PhotoStepView::HideAndCall(DirectShowCall::MediaControl),
        GraphEvent::MediaControlCast(_) => PhotoStepView::Call(DirectShowCall::Run),
        GraphEvent::Ran(_) => PhotoStepView::HideWaitAndCall(DirectShowCall::BasicVideo),
        GraphEvent::BasicVideoCast(_) => PhotoStepView::Call(DirectShowCall::ImageSize),
        GraphEvent::SizeRead(size) => match size {
            Ok(size) if size > 0 => PhotoStepView::ReadImage { words: words_for(size) },
            _ => PhotoStepView::StopAndFail(
                CameraErrorView::BackendFailure("directshow returned empty frame"@),
            ),
        },
        GraphEvent::DataRead(_) => PhotoStepView::StopAndEncode,
        GraphEvent::StopChecked(_) => PhotoStepView::Call(DirectShowCall::CreateGraph),
    }
}

/// What an event leads to on the way to a photo: a failed call is reported.
pub open spec fn photo_step(event: GraphEvent) -> PhotoStepView {
    match failed_event(event) {
        Some((call, detail)) => PhotoStepView::Fail(call.failure(detail)),
        None => photo_progress(event),
    }
}

fn call_or(done: &Result<(), String>, call: DirectShowCall, next: PhotoStep) -> (step: PhotoStep)
    ensures
        match done {
            Ok(_) => step == next,
            Err(d) => step@ == PhotoStepView::Fail(call.failure(d@)),
        },
{
    match done {
        Ok(_) => next,
        Err(d) => PhotoStep::Fail(call.failed(d.as_str())),
    }
}

/// What an event leads to on the way to a photo. The first call is
/// [`DirectShowCall::CreateGraph`].
pub fn photo_next(event: &GraphEvent) -> (step: PhotoStep)
    ensures
        step@ == photo_step(*event),
{
    match event {
        GraphEvent::Created(r) => call_or(
            r,
            DirectShowCall::CreateGraph,
            PhotoStep::Call(DirectShowCall::AddSource),
        ),
        GraphEvent::SourceAdded(r) => call_or(
            r,
            DirectShowCall::AddSource,
            PhotoStep::Call(DirectShowCall::EnumPins),
        ),
        GraphEvent::PinsEnumerated(r) => call_or(
            r,
            DirectShowCall::EnumPins,
            PhotoStep::Call(DirectShowCall::NextPin),
        ),
        GraphEvent::PinFetched(fetch) => {
            if fetch.fetched == 0 {
                return PhotoStep::Fail(no_output_pin());
            }
            match &fetch.status {
                FetchStatus::Exhausted => PhotoStep::Fail(no_output_pin()),
                FetchStatus::Failed(d) => PhotoStep::Fail(
                    DirectShowCall::NextPin.failed(d.as_str()),
                ),
                FetchStatus::Success => if fetch.has_item {
                    PhotoStep::Call(DirectShowCall::QueryDirection)
                } else {
                    PhotoStep::Call(DirectShowCall::NextPin)
                },
            }
        },
        GraphEvent::DirectionRead(r) => match r {
            Ok(true) => PhotoStep::Call(DirectShowCall::Render),
            Ok(false) => PhotoStep::Call(DirectShowCall::NextPin),
            Err(d) => PhotoStep::Fail(DirectShowCall::QueryDirection.failed(d.as_str())),
        },
        GraphEvent::Rendered(r) => call_or(
            r,
            DirectShowCall::Render,
            PhotoStep::HideAndCall(DirectShowCall::MediaControl),
        ),
        GraphEvent::MediaControlCast(r) => call_or(
            r,
            DirectShowCall::MediaControl,
            PhotoStep::Call(DirectShowCall::Run),
        ),
        GraphEvent::Ran(r) => call_or(
            r,
            DirectShowCall::Run,
            PhotoStep::HideWaitAndCall(DirectShowCall::BasicVideo),
        ),
        GraphEvent::BasicVideoCast(r) => call_or(
            r,
            DirectShowCall::BasicVideo,
            PhotoStep::Call(DirectShowCall::ImageSize),
        ),
        GraphEvent::SizeRead(r) => match r {
            Ok(size) => if *size > 0 {
                PhotoStep::ReadImage { words: image_words(*size) }
            } else {
                PhotoStep::StopAndFail(
                    CameraError::BackendFailure("directshow returned empty frame".to_owned()),
                )
            },
            Err(d) => PhotoStep::Fail(DirectShowCall::ImageSize.failed(d.as_str())),
        },
        GraphEvent::DataRead(r) => match r {
            Ok(_) => PhotoStep::StopAndEncode,
            Err(d) => PhotoStep::Fail(DirectShowCall::ImageData.failed(d.as_str())),
        },
        GraphEvent::StopChecked(_) => PhotoStep::Call(DirectShowCall::CreateGraph),
    }
}

fn no_output_pin() -> (e: CameraError)
    ensures
        e@ == CameraErrorView::BackendFailure("no output pin found for directshow device"@),
{
    CameraError::BackendFailure("no output pin found for directshow device".to_owned())
}

// ---------------------------------------------------------------------------
// Sessions
// ---------------------------------------------------------------------------

/// What an event leads to in a session: before the graph runs a failed call ends the session,
/// but for a pin without a direction, which is passed over; behind that only the loss of the
/// video interface does, and a frame that cannot be read is passed over.
pub open spec fn stream_step(event: GraphEvent) -> StreamStep {
    match event {
        GraphEvent::Created(Ok(_)) => StreamStep::Call(DirectShowCall::AddSource),
        GraphEvent::SourceAdded(Ok(_)) => StreamStep::Call(DirectShowCall::EnumPins),
        GraphEvent::PinsEnumerated(Ok(_)) => StreamStep::Call(DirectShowCall::NextPin),
        GraphEvent::PinFetched(fetch) => if no_more_pins(fetch) || fetch.status is Failed {
            StreamStep::End
        } else if fetch.has_item {
            StreamStep::Call(DirectShowCall::QueryDirection)
        } else {
            StreamStep::Call(DirectShowCall::NextPin)
        },
        GraphEvent::DirectionRead(Ok(true)) => StreamStep::Call(DirectShowCall::Render),
        GraphEvent::DirectionRead(_) => StreamStep::Call(DirectShowCall::NextPin),
        GraphEvent::Rendered(Ok(_)) => StreamStep::HideAndCall(DirectShowCall::MediaControl),
        GraphEvent::MediaControlCast(Ok(_)) => StreamStep::Call(DirectShowCall::Run),
        GraphEvent::Ran(Ok(_)) => StreamStep::HideAndCheckStop,
        GraphEvent::StopChecked(false) => StreamStep::HideAndCall(DirectShowCall::BasicVideo),
        GraphEvent::StopChecked(true) => StreamStep::StopAndEnd,
        GraphEvent::BasicVideoCast(Ok(_)) => StreamStep::Call(DirectShowCall::ImageSize),
        GraphEvent::BasicVideoCast(Err(_)) => StreamStep::StopAndEnd,
        GraphEvent::SizeRead(size) => match size {
            Ok(size) if size > 0 => StreamStep::ReadImage { words: words_for(size) },
            _ => StreamStep::PauseAndCheckStop,
        },
        GraphEvent::DataRead(Ok(_)) => StreamStep::Encode,
        GraphEvent::DataRead(Err(_)) => StreamStep::PauseAndCheckStop,
        _ => StreamStep::End,
    }
}

/// How a session begins, of the search for its camera.
pub fn stream_begin(found: &Result<usize, CameraError>) -> (step: StreamStep)
    ensures
        step == match found {
            Ok(_) => StreamStep::Call(DirectShowCall::CreateGraph),
            Err(_) => StreamStep::End,
        },
{
    match found {
        Ok(_) => StreamStep::Call(DirectShowCall::CreateGraph),
        Err(_) => StreamStep::End,
    }
}

/// What an event leads to in a session.
pub fn stream_next(event: &GraphEvent) -> (step: StreamStep)
    ensures
        step == stream_step(*event),
{
    match event {
        GraphEvent::Created(Ok(_)) => StreamStep::Call(DirectShowCall::AddSource),
        GraphEvent::SourceAdded(Ok(_)) => StreamStep::Call(DirectShowCall::EnumPins),
        GraphEvent::PinsEnumerated(Ok(_)) => StreamStep::Call(DirectShowCall::NextPin),
        GraphEvent::PinFetched(fetch) => match &fetch.status {
            FetchStatus::Success => if fetch.fetched == 0 {
                StreamStep::End
            } else if fetch.has_item {
                StreamStep::Call(DirectShowCall::QueryDirection)
            } else {
                StreamStep::Call(DirectShowCall::NextPin)
            },
            _ => StreamStep::End,
        },
        GraphEvent::DirectionRead(Ok(true)) => StreamStep::Call(DirectShowCall::Render),
        GraphEvent::DirectionRead(_) => StreamStep::Call(DirectShowCall::NextPin),
        GraphEvent::Rendered(Ok(_)) => StreamStep::HideAndCall(DirectShowCall::MediaControl),
        GraphEvent::MediaControlCast(Ok(_)) => StreamStep::Call(DirectShowCall::Run),
        GraphEvent::Ran(Ok(_)) => StreamStep::HideAndCheckStop,
        GraphEvent::StopChecked(stop) => if *stop {
            StreamStep::StopAndEnd
        } else {
            StreamStep::HideAndCall(DirectShowCall::BasicVideo)
        },
        GraphEvent::BasicVideoCast(Ok(_)) => StreamStep::Call(DirectShowCall::ImageSize),
        GraphEvent::BasicVideoCast(Err(_)) => StreamStep::StopAndEnd,
        GraphEvent::SizeRead(size) => match size {
            Ok(size) if *size > 0 => StreamStep::ReadImage { words: image_words(*size) },
            _ => StreamStep::PauseAndCheckStop,
        },
        GraphEvent::DataRead(Ok(_)) => StreamStep::Encode,
        GraphEvent::DataRead(Err(_)) => StreamStep::PauseAndCheckStop,
        _ => StreamStep::End,
    }
}

// ---------------------------------------------------------------------------
// Laws
// ---------------------------------------------------------------------------

/// What a step waits for.
pub enum Request {
    Call(DirectShowCall),
    StopFlag,
}

/// What an event answers.
pub open spec fn answered(event: GraphEvent) -> Request {
    match event {
        GraphEvent::Created(_) => Request::Call(DirectShowCall::CreateGraph),
        GraphEvent::SourceAdded(_) => Request::Call(DirectShowCall::AddSource),
        GraphEvent::PinsEnumerated(_) => Request::Call(DirectShowCall::EnumPins),
        GraphEvent::PinFetched(_) => Request::Call(DirectShowCall::NextPin),
        GraphEvent::DirectionRead(_) => Request::Call(DirectShowCall::QueryDirection),
        GraphEvent::Rendered(_) => Request::Call(DirectShowCall::Render),
        GraphEvent::MediaControlCast(_) => Request::Call(DirectShowCall::MediaControl),
        GraphEvent::Ran(_) => Request::Call(DirectShowCall::Run),
        GraphEvent::BasicVideoCast(_) => Request::Call(DirectShowCall::BasicVideo),
        GraphEvent::SizeRead(_) => Request::Call(DirectShowCall::ImageSize),
        GraphEvent::DataRead(_) => Request::Call(DirectShowCall::ImageData),
        GraphEvent::StopChecked(_) => Request::StopFlag,
    }
}

/// What a step of a photo waits for; the last one waits for nothing.
pub open spec fn photo_request(step: PhotoStepView) -> Option<Request> {
    match step {
        PhotoStepView::Call(call) => Some(Request::Call(call)),
        PhotoStepView::HideAndCall(call) => Some(Request::Call(call)),
        PhotoStepView::HideWaitAndCall(call) => Some(Request::Call(call)),
        PhotoStepView::ReadImage { .. } => Some(Request::Call(DirectShowCall::ImageData)),
        _ => None,
    }
}

/// Whether the events are those of one photo, from its first call on.
pub open spec fn is_photo_run(events: Seq<GraphEvent>) -> bool {
    &&& events.len() > 0
    &&& answered(events[0]) == Request::Call(DirectShowCall::CreateGraph)
    &&& forall|i: int|
        0 < i < events.len() ==> photo_request(photo_step(events[i - 1])) == Some(
            answered(#[trigger] events[i]),
        )
}

/// A photo is encoded only where no call failed. The first call that fails ends it and is the
/// one that is reported.
pub proof fn a_failed_call_ends_a_photo(events: Seq<GraphEvent>, i: int)
    requires
        is_photo_run(events),
        0 <= i < events.len(),
        failed_event(events[i]) is Some,
    ensures
        i == events.len() - 1,
        failed_event(events[i]) matches Some((call, detail)) ==> photo_step(events.last())
            == PhotoStepView::Fail(call.failure(detail)),
{
    if i + 1 < events.len() {
        assert(photo_request(photo_step(events[i + 1 - 1])) == Some(answered(events[i + 1])));
    }
}

/// What a step of a session waits for; the last one waits for nothing.
pub open spec fn stream_request(step: StreamStep) -> Option<Request> {
    match step {
        StreamStep::Call(call) => Some(Request::Call(call)),
        StreamStep::HideAndCall(call) => Some(Request::Call(call)),
        StreamStep::ReadImage { .. } => Some(Request::Call(DirectShowCall::ImageData)),
        StreamStep::HideAndCheckStop => Some(Request::StopFlag),
        StreamStep::PauseAndCheckStop => Some(Request::StopFlag),
        StreamStep::Encode => Some(Request::StopFlag),
        _ => None,
    }
}

/// Whether the events are those of one session, from its first call on.
pub open spec fn is_stream_run(events: Seq<GraphEvent>) -> bool {
    &&& events.len() > 0
    &&& answered(events[0]) == Request::Call(DirectShowCall::CreateGraph)
    &&& forall|i: int|
        0 < i < events.len() ==> stream_request(stream_step(events[i - 1])) == Some(
            answered(#[trigger] events[i]),
        )
}

/// Whether the graph runs behind these events.
pub open spec fn has_run(events: Seq<GraphEvent>) -> bool {
    exists|i: int| 0 <= i < events.len() && #[trigger] events[i] is Ran && events[i]->Ran_0 is Ok
}

/// Whether a step belongs to the part of a session in which the graph runs.
pub open spec fn is_running_step(step: StreamStep) -> bool {
    match step {
        StreamStep::Call(call) => call == DirectShowCall::ImageSize,
        StreamStep::HideAndCall(call) => call == DirectShowCall::BasicVideo,
        StreamStep::End => false,
        _ => true,
    }
}

/// A session that ends stops its graph exactly where it runs.
pub proof fn a_session_stops_the_graph_that_it_ran(events: Seq<GraphEvent>)
    requires
        is_stream_run(events),
    ensures
        stream_step(events.last()) == StreamStep::StopAndEnd ==> has_run(events),
        stream_step(events.last()) == StreamStep::End ==> !has_run(events),
        is_running_step(stream_step(events.last())) == has_run(events),
    decreases events.len(),
{
    let last = events.len() - 1;
    if last > 0 {
        let front = events.drop_last();
        assert forall|i: int| 0 < i < front.len() implies stream_request(
            stream_step(front[i - 1]),
        ) == Some(answered(#[trigger] front[i])) by {
            assert(front[i] == events[i]);
        }
        a_session_stops_the_graph_that_it_ran(front);
        assert(stream_request(stream_step(events[last - 1])) == Some(answered(events[last])));
        if has_run(front) {
            let i = choose|i: int|
                0 <= i < front.len() && #[trigger] front[i] is Ran && front[i]->Ran_0 is Ok;
            assert(events[i] is Ran && events[i]->Ran_0 is Ok);
        }
        if has_run(events) {
            let i = choose|i: int|
                0 <= i < events.len() && #[trigger] events[i] is Ran && events[i]->Ran_0 is Ok;
            if i < last {
                assert(front[i] is Ran && front[i]->Ran_0 is Ok);
            }
        }
    }
    if events[last] is Ran && events[last]->Ran_0 is Ok {
        assert(has_run(events));
    }
}

/// The frame that a session keeps behind an event: where a bitmap was read, what is kept of its
/// encoding, and otherwise the one before.
pub open spec fn slot_step(slot: Option<Seq<u8>>, event: GraphEvent) -> Option<Seq<u8>> {
    match event {
        GraphEvent::DataRead(Ok(bitmap)) => indexed::kept(slot, dib::dib_jpeg(bitmap@)),
        _ => slot,
    }
}

/// The frame that a session keeps behind the events, of the one that it began with.
pub open spec fn slot_after(slot: Option<Seq<u8>>, events: Seq<GraphEvent>) -> Option<Seq<u8>>
    decreases events.len(),
{
    if events.len() == 0 {
        slot
    } else {
        slot_step(slot_after(slot, events.drop_last()), events.last())
    }
}

/// The JPEG file of the bitmap that was read, where one was and it can be encoded.
pub open spec fn jpeg_in(event: GraphEvent) -> Option<Seq<u8>> {
    match event {
        GraphEvent::DataRead(Ok(bitmap)) => match dib::dib_jpeg(bitmap@) {
            Ok(file) => Some(file),
            Err(_) => None,
        },
        _ => None,
    }
}

#[verifier::spinoff_prover]
#[verifier::rlimit(40)]
proof fn lemma_slot(slot: Option<Seq<u8>>, events: Seq<GraphEvent>)
    ensures
        forall|i: int|
            0 <= i < events.len() && jpeg_in(#[trigger] events[i]) is Some && (forall|k: int|
                i < k < events.len() ==> jpeg_in(#[trigger] events[k]) is None) ==> slot_after(
                slot,
                events,
            ) == jpeg_in(events[i]),
        (forall|i: int| 0 <= i < events.len() ==> jpeg_in(#[trigger] events[i]) is None)
            ==> slot_after(slot, events) == slot,
    decreases events.len(),
{
    if events.len() > 0 {
        let front = events.drop_last();
        let last = events.len() - 1;
        lemma_slot(slot, front);
        if jpeg_in(events[last]) is None {
            assert(slot_after(slot, events) == slot_after(slot, front));
        } else {
            assert(slot_after(slot, events) == jpeg_in(events[last]));
        }
        assert forall|i: int|
            0 <= i < events.len() && jpeg_in(#[trigger] events[i]) is Some && (forall|k: int|
                i < k < events.len() ==> jpeg_in(#[trigger] events[k]) is None) implies slot_after(
            slot,
            events,
        ) == jpeg_in(events[i]) by {
            if i < last {
                assert(front[i] == events[i]);
                assert forall|k: int| i < k < front.len() implies jpeg_in(#[trigger] front[k])
                    is None by {
                    assert(front[k] == events[k]);
                }
                assert(jpeg_in(events[last]) is None);
            }
        }
        if forall|i: int| 0 <= i < events.len() ==> jpeg_in(#[trigger] events[i]) is None {
            assert(jpeg_in(events[last]) is None);
            assert forall|k: int| 0 <= k < front.len() implies jpeg_in(#[trigger] front[k])
                is None by {
                assert(front[k] == events[k]);
            }
        }
    }
}

/// A session keeps the JPEG file of the last bitmap that was read and could be encoded. Where
/// there was none it keeps the frame that it began with, and so it does where its graph never
/// ran: a failed call or encoding takes no frame away.
pub proof fn a_session_keeps_its_last_frame(slot: Option<Seq<u8>>, events: Seq<GraphEvent>)
    requires
        is_stream_run(events),
    ensures
        forall|i: int|
            0 <= i < events.len() && jpeg_in(#[trigger] events[i]) is Some && (forall|k: int|
                i < k < events.len() ==> jpeg_in(#[trigger] events[k]) is None) ==> slot_after(
                slot,
                events,
            ) == jpeg_in(events[i]),
        (forall|i: int| 0 <= i < events.len() ==> jpeg_in(#[trigger] events[i]) is None)
            ==> slot_after(slot, events) == slot,
        !has_run(events) ==> slot_after(slot, events) == slot,
{
    lemma_slot(slot, events);
    if !has_run(events) {
        assert forall|i: int| 0 <= i < events.len() implies jpeg_in(#[trigger] events[i])
            is None by {
            if events[i] is DataRead {
                assert(i > 0);
                let front = events.take(i);
                assert forall|k: int| 0 < k < front.len() implies stream_request(
                    stream_step(front[k - 1]),
                ) == Some(answered(#[trigger] front[k])) by {
                    assert(front[k] == events[k] && front[k - 1] == events[k - 1]);
                }
                assert(front.last() == events[i - 1]);
                a_session_stops_the_graph_that_it_ran(front);
                assert(stream_request(stream_step(events[i - 1])) == Some(answered(events[i])));
                let k = choose|k: int|
                    0 <= k < front.len() && #[trigger] front[k] is Ran && front[k]->Ran_0 is Ok;
                assert(events[k] is Ran && events[k]->Ran_0 is Ok);
            }
        }
    }
}

// ---------------------------------------------------------------------------
// Laws on single events
// ---------------------------------------------------------------------------

/// A frame is read into just as many words of four bytes as it needs.
pub proof fn a_frame_has_as_many_words_as_it_needs(size: i32)
    requires
        size > 0,
    ensures
        4 * words_for(size) >= size,
        4 * (words_for(size) - 1) < size,
{
}

/// A photo looks through the pins until it finds an output: it goes on where there is no item or
/// the pin is an input, and fails where the pins are exhausted. A call that fails is reported.
pub proof fn a_photo_looks_for_an_output_pin(fetch: Fetch, output: Result<bool, String>)
    ensures
        ({
            let step = photo_step(GraphEvent::PinFetched(fetch));
            let none = PhotoStepView::Fail(
                CameraErrorView::BackendFailure("no output pin found for directshow device"@),
            );
            match fetch.status {
                FetchStatus::Exhausted => step == none,
                FetchStatus::Failed(detail) => if fetch.fetched == 0 {
                    step == none
                } else {
                    step == PhotoStepView::Fail(
                        CameraErrorView::BackendFailure(
                            "IEnumPins::Next"@ + " failed: "@ + detail@,
                        ),
                    )
                },
                FetchStatus::Success => {
                    &&& fetch.fetched == 0 ==> step == none
                    &&& fetch.fetched > 0 && fetch.has_item ==> step == PhotoStepView::Call(
                        DirectShowCall::QueryDirection,
                    )
                    &&& fetch.fetched > 0 && !fetch.has_item ==> step == PhotoStepView::Call(
                        DirectShowCall::NextPin,
                    )
                },
            }
        }),
        match output {
            Ok(true) => photo_step(GraphEvent::DirectionRead(output)) == PhotoStepView::Call(
                DirectShowCall::Render,
            ),
            Ok(false) => photo_step(GraphEvent::DirectionRead(output)) == PhotoStepView::Call(
                DirectShowCall::NextPin,
            ),
            Err(detail) => photo_step(GraphEvent::DirectionRead(output)) == PhotoStepView::Fail(
                CameraErrorView::BackendFailure("QueryDirection"@ + " failed: "@ + detail@),
            ),
        },
{
}

/// A photo of any positive size is read and encoded, whatever its bytes are. An empty frame stops
/// the graph and fails; a call that fails is reported.
pub proof fn a_photo_is_read_where_there_is_a_frame(
    size: Result<i32, String>,
    data: Result<Vec<u8>, String>,
)
    ensures
        match size {
            Ok(n) => {
                let step = photo_step(GraphEvent::SizeRead(size));
                &&& n > 0 ==> step is ReadImage && step->words == words_for(n)
                &&& n <= 0 ==> step == PhotoStepView::StopAndFail(
                    CameraErrorView::BackendFailure("directshow returned empty frame"@),
                )
            },
            Err(detail) => photo_step(GraphEvent::SizeRead(size)) == PhotoStepView::Fail(
                CameraErrorView::BackendFailure("GetCurrentImage(size)"@ + " failed: "@ + detail@),
            ),
        },
        match data {
            Ok(_) => photo_step(GraphEvent::DataRead(data)) == PhotoStepView::StopAndEncode,
            Err(detail) => photo_step(GraphEvent::DataRead(data)) == PhotoStepView::Fail(
                CameraErrorView::BackendFailure("GetCurrentImage(data)"@ + " failed: "@ + detail@),
            ),
        },
{
}

/// A photo builds its graph call by call: each call that succeeds leads to the next, and each that
/// fails is reported by its title and the detail. The graph runs for 350 milliseconds first.
pub proof fn a_photo_builds_its_graph_call_by_call(done: Result<(), String>)
    ensures
        WARM_UP_MS == 350,
        done is Ok ==> {
            &&& photo_step(GraphEvent::Created(done)) == PhotoStepView::Call(
                DirectShowCall::AddSource,
            )
            &&& photo_step(GraphEvent::SourceAdded(done)) == PhotoStepView::Call(
                DirectShowCall::EnumPins,
            )
            &&& photo_step(GraphEvent::PinsEnumerated(done)) == PhotoStepView::Call(
                DirectShowCall::NextPin,
            )
            &&& photo_step(GraphEvent::Rendered(done)) == PhotoStepView::HideAndCall(
                DirectShowCall::MediaControl,
            )
            &&& photo_step(GraphEvent::MediaControlCast(done)) == PhotoStepView::Call(
                DirectShowCall::Run,
            )
            &&& photo_step(GraphEvent::Ran(done)) == PhotoStepView::HideWaitAndCall(
                DirectShowCall::BasicVideo,
            )
            &&& photo_step(GraphEvent::BasicVideoCast(done)) == PhotoStepView::Call(
                DirectShowCall::ImageSize,
            )
        },
        done matches Err(detail) ==> {
            let failed = |title: Seq<char>|
                PhotoStepView::Fail(
                    CameraErrorView::BackendFailure(title + " failed: "@ + detail@),
                );
            &&& photo_step(GraphEvent::Created(done)) == failed("CoCreateInstance(FilterGraph)"@)
            &&& photo_step(GraphEvent::SourceAdded(done)) == failed("AddSourceFilterForMoniker"@)
            &&& photo_step(GraphEvent::PinsEnumerated(done)) == failed("EnumPins"@)
            &&& photo_step(GraphEvent::Rendered(done)) == failed("graph render"@)
            &&& photo_step(GraphEvent::MediaControlCast(done)) == failed("IMediaControl cast"@)
            &&& photo_step(GraphEvent::Ran(done)) == failed("graph run"@)
            &&& photo_step(GraphEvent::BasicVideoCast(done)) == failed("IBasicVideo cast"@)
        },
{
}

/// A session looks through the pins as a photo does, and ends where a photo fails; a pin whose
/// direction cannot be read is passed over.
pub proof fn a_session_looks_for_an_output_pin(fetch: Fetch, output: Result<bool, String>)
    ensures
        ({
            let step = stream_step(GraphEvent::PinFetched(fetch));
            &&& step == StreamStep::End <==> !(fetch.status is Success) || fetch.fetched == 0
            &&& fetch.status is Success && fetch.fetched > 0 ==> step == StreamStep::Call(
                if fetch.has_item {
                    DirectShowCall::QueryDirection
                } else {
                    DirectShowCall::NextPin
                },
            )
        }),
        match output {
            Ok(true) => stream_step(GraphEvent::DirectionRead(output)) == StreamStep::Call(
                DirectShowCall::Render,
            ),
            _ => stream_step(GraphEvent::DirectionRead(output)) == StreamStep::Call(
                DirectShowCall::NextPin,
            ),
        },
{
}

/// A session builds its graph as a photo does, call by call, and ends where a call fails before
/// the graph runs. While it runs, every frame of a positive size is read and encoded, whatever its
/// bytes are; a frame that cannot be had is waited for, 150 milliseconds at a time. The session
/// stops its graph where it is told to and where it loses the video.
pub proof fn a_session_goes_on_while_its_graph_runs(
    done: Result<(), String>,
    size: Result<i32, String>,
    data: Result<Vec<u8>, String>,
    stop: bool,
)
    ensures
        FRAME_PAUSE_MS == 150,
        done is Ok ==> {
            &&& stream_step(GraphEvent::Created(done)) == StreamStep::Call(
                DirectShowCall::AddSource,
            )
            &&& stream_step(GraphEvent::SourceAdded(done)) == StreamStep::Call(
                DirectShowCall::EnumPins,
            )
            &&& stream_step(GraphEvent::PinsEnumerated(done)) == StreamStep::Call(
                DirectShowCall::NextPin,
            )
            &&& stream_step(GraphEvent::Rendered(done)) == StreamStep::HideAndCall(
                DirectShowCall::MediaControl,
            )
            &&& stream_step(GraphEvent::MediaControlCast(done)) == StreamStep::Call(
                DirectShowCall::Run,
            )
            &&& stream_step(GraphEvent::Ran(done)) == StreamStep::HideAndCheckStop
            &&& stream_step(GraphEvent::BasicVideoCast(done)) == StreamStep::Call(
                DirectShowCall::ImageSize,
            )
        },
        done is Err ==> {
            &&& stream_step(GraphEvent::Created(done)) == StreamStep::End
            &&& stream_step(GraphEvent::SourceAdded(done)) == StreamStep::End
            &&& stream_step(GraphEvent::PinsEnumerated(done)) == StreamStep::End
            &&& stream_step(GraphEvent::Rendered(done)) == StreamStep::End
            &&& stream_step(GraphEvent::MediaControlCast(done)) == StreamStep::End
            &&& stream_step(GraphEvent::Ran(done)) == StreamStep::End
            &&& stream_step(GraphEvent::BasicVideoCast(done)) == StreamStep::StopAndEnd
        },
        match size {
            Ok(n) if n > 0 => stream_step(GraphEvent::SizeRead(size)) == (StreamStep::ReadImage {
                words: words_for(n),
            }),
            _ => stream_step(GraphEvent::SizeRead(size)) == StreamStep::PauseAndCheckStop,
        },
        stream_step(GraphEvent::DataRead(data)) == (if data is Ok {
            StreamStep::Encode
        } else {
            StreamStep::PauseAndCheckStop
        }),
        stream_step(GraphEvent::StopChecked(stop)) == (if stop {
            StreamStep::StopAndEnd
        } else {
            StreamStep::HideAndCall(DirectShowCall::BasicVideo)
        }),
{
}

/// The steps of a photo are compared by what they hold.
pub proof fn steps_are_seen_by_what_they_hold(call: DirectShowCall, words: usize, e: CameraError)
    ensures
        PhotoStep::Call(call)@ == PhotoStepView::Call(call),
        PhotoStep::HideAndCall(call)@ == PhotoStepView::HideAndCall(call),
        PhotoStep::HideWaitAndCall(call)@ == PhotoStepView::HideWaitAndCall(call),
        (PhotoStep::ReadImage { words })@ == (PhotoStepView::ReadImage { words }),
        PhotoStep::StopAndEncode@ is StopAndEncode,
        PhotoStep::Fail(e)@ == PhotoStepView::Fail(e@),
        PhotoStep::StopAndFail(e)@ == PhotoStepView::StopAndFail(e@),
{
}

}
