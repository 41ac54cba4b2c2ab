//! The Media Foundation calls whose failure is reported, and the list of sources.

use crate::camera::indexed;
use crate::camera::{CameraError, CameraErrorView};
use crate::text;
use vstd::prelude::*;

verus! {

/// A call into Media Foundation.
#[derive(Debug, Clone, Copy, PartialEq, Eq, Structural)]
pub enum MediaCall {
    Initialize,
    Startup,
    CreateAttributes,
    SetSourceType,
    EnumSources,
    FriendlyName,
    Activate,
    CreateReader,
    NativeMode,
    SelectNativeMode,
    CreateMediaType,
    SetMajorType,
    SetSubtype,
    SelectMjpg,
    ReadSample,
    ConvertBuffer,
    LockBuffer,
}

impl MediaCall {
    /// What messages call it.
    pub open spec fn title(self) -> Seq<char> {
        match self {
            MediaCall::Initialize => "CoInitializeEx"@,
            MediaCall::Startup => "MFStartup"@,
            MediaCall::CreateAttributes => "MFCreateAttributes"@,
            MediaCall::SetSourceType => "SetGUID"@,
            MediaCall::EnumSources => "MFEnumDeviceSources"@,
            MediaCall::FriendlyName => "GetAllocatedString"@,
            MediaCall::Activate => "ActivateObject"@,
            MediaCall::CreateReader => "MFCreateSourceReaderFromMediaSource"@,
            MediaCall::NativeMode => "GetNativeMediaType(selected mode)"@,
            MediaCall::SelectNativeMode => "SetCurrentMediaType(native mode)"@,
            MediaCall::CreateMediaType => "MFCreateMediaType"@,
            MediaCall::SetMajorType => "SetGUID major type"@,
            MediaCall::SetSubtype => "SetGUID subtype MJPG"@,
            MediaCall::SelectMjpg => "SetCurrentMediaType(MJPG)"@,
            MediaCall::ReadSample => "ReadSample"@,
            MediaCall::ConvertBuffer => "ConvertToContiguousBuffer"@,
            MediaCall::LockBuffer => "buffer lock"@,
        }
    }

    /// The message where the call fails.
    pub open spec fn failure(self, detail: Seq<char>) -> Seq<char> {
        indexed::failed_message(self.title(), detail)
    }

    /// The message where the call fails.
    pub fn failed_text(self, detail: &str) -> (message: String)
        ensures
            message@ == self.failure(detail@),
    {
        let title = match self {
            MediaCall::Initialize => "CoInitializeEx",
            MediaCall::Startup => "MFStartup",
            MediaCall::CreateAttributes => "MFCreateAttributes",
            MediaCall::SetSourceType => "SetGUID",
            MediaCall::EnumSources => "MFEnumDeviceSources",
            MediaCall::FriendlyName => "GetAllocatedString",
            MediaCall::Activate => "ActivateObject",
            MediaCall::CreateReader => "MFCreateSourceReaderFromMediaSource",
            MediaCall::NativeMode => "GetNativeMediaType(selected mode)",
            MediaCall::SelectNativeMode => "SetCurrentMediaType(native mode)",
            MediaCall::CreateMediaType => "MFCreateMediaType",
            MediaCall::SetMajorType => "SetGUID major type",
            MediaCall::SetSubtype => "SetGUID subtype MJPG",
            MediaCall::SelectMjpg => "SetCurrentMediaType(MJPG)",
            MediaCall::ReadSample => "ReadSample",
            MediaCall::ConvertBuffer => "ConvertToContiguousBuffer",
            MediaCall::LockBuffer => "buffer lock",
        };
        text::joined3(title, " failed: ", detail)
    }

    /// The error where the call fails.
    pub fn failed(self, detail: &str) -> (e: CameraError)
        ensures
            e@ == CameraErrorView::BackendFailure(self.failure(detail@)),
    {
        CameraError::BackendFailure(self.failed_text(detail))
    }
}

/// The message where the attributes for the list of sources cannot be had.
pub fn no_attributes() -> (message: String)
    ensures
        message@ == "MFCreateAttributes returned null"@,
{
    "MFCreateAttributes returned null".to_owned()
}

/// One place of the list of sources.
#[derive(Debug, PartialEq, Eq)]
pub enum SourceSlot {
    /// There is no source.
    Empty,
    /// A source and its name, where it can be read as text.
    Source(Option<String>),
    /// A source whose name could not be had, with the message of the call.
    Failed(String),
}

/// What a source is called.
pub open spec fn source_name(name: Option<String>) -> Seq<char> {
    match name {
        Some(name) => name@,
        None => "Unknown Camera"@,
    }
}

/// The names of the sources, or the message about the first one whose name could not be had.
pub open spec fn names_in(slots: Seq<SourceSlot>) -> Result<Seq<Seq<char>>, Seq<char>>
    decreases slots.len(),
{
    if slots.len() == 0 {
        Ok(Seq::empty())
    } else {
        match names_in(slots.drop_last()) {
            Err(message) => Err(message),
            Ok(names) => match slots.last() {
                SourceSlot::Empty => Ok(names),
                SourceSlot::Source(name) => Ok(names.push(source_name(name))),
                SourceSlot::Failed(detail) => Err(MediaCall::FriendlyName.failure(detail@)),
            },
        }
    }
}

/// Texts by their views.
pub open spec fn texts_view(texts: Seq<String>) -> Seq<Seq<char>> {
    texts.map_values(|t: String| t@)
}

/// Names by their views.
pub open spec fn names_view(names: Result<Vec<String>, String>) -> Result<
    Seq<Seq<char>>,
    Seq<char>,
> {
    match names {
        Ok(names) => Ok(texts_view(names@)),
        Err(message) => Err(message@),
    }
}

/// The names of the sources.
pub fn source_names(slots: &Vec<SourceSlot>) -> (names: Result<Vec<String>, String>)
    ensures
        names_view(names) == names_in(slots@),
{
    let mut names: Vec<String> = Vec::new();
    let mut i: usize = 0;
    assert(slots@.take(0) =~= Seq::empty());
    assert(texts_view(names@) =~= Seq::empty());
    while i < slots.len()
        invariant
            i <= slots@.len(),
            names_in(slots@.take(i as int)) == Ok::<Seq<Seq<char>>, Seq<char>>(
                texts_view(names@),
            ),
        decreases slots@.len() - i,
    {
        assert(slots@.take(i + 1).drop_last() =~= slots@.take(i as int));
        let ghost before = names@;
        match &slots[i] {
            SourceSlot::Empty => {},
            SourceSlot::Source(name) => {
                let name = match name {
                    Some(name) => name.clone(),
                    None => "Unknown Camera".to_owned(),
                };
                names.push(name);
                assert(texts_view(names@) =~= texts_view(before).push(name@));
            },
            SourceSlot::Failed(detail) => {
                let message = MediaCall::FriendlyName.failed_text(detail.as_str());
                proof {
                    lemma_failure_stays(slots@, i + 1);
                }
                return Err(message);
            },
        }
        i += 1;
    }
    assert(slots@.take(i as int) =~= slots@);
    Ok(names)
}

proof fn lemma_failure_stays(slots: Seq<SourceSlot>, n: int)
    requires
        0 <= n <= slots.len(),
        names_in(slots.take(n)) is Err,
    ensures
        names_in(slots) == names_in(slots.take(n)),
    decreases slots.len() - n,
{
    if n < slots.len() {
        assert(slots.take(n + 1).drop_last() =~= slots.take(n));
        lemma_failure_stays(slots, n + 1);
    } else {
        assert(slots.take(n) =~= slots);
    }
}

/// A failed call is reported by its title and the detail.
pub proof fn a_failed_call_is_reported(call: MediaCall, detail: Seq<char>)
    ensures
        call.failure(detail) == call.title() + " failed: "@ + detail,
{
}

/// Sources are named in their order. An empty place adds no name, a source adds its own or a
/// stand-in where it cannot be read, and the first name that cannot be had ends the list with the
/// message about it.
pub proof fn each_source_adds_its_name(slots: Seq<SourceSlot>, slot: SourceSlot)
    ensures
        names_in(Seq::empty()) == Ok::<Seq<Seq<char>>, Seq<char>>(Seq::empty()),
        match names_in(slots) {
            Err(message) => names_in(slots.push(slot)) == Err::<Seq<Seq<char>>, Seq<char>>(
                message,
            ),
            Ok(names) => match slot {
                SourceSlot::Empty => names_in(slots.push(slot)) == Ok::<
                    Seq<Seq<char>>,
                    Seq<char>,
                >(names),
                SourceSlot::Source(Some(name)) => names_in(slots.push(slot)) == Ok::<
                    Seq<Seq<char>>,
                    Seq<char>,
                >(names.push(name@)),
                SourceSlot::Source(None) => names_in(slots.push(slot)) == Ok::<
                    Seq<Seq<char>>,
                    Seq<char>,
                >(names.push("Unknown Camera"@)),
                SourceSlot::Failed(detail) => names_in(slots.push(slot)) == Err::<
                    Seq<Seq<char>>,
                    Seq<char>,
                >("GetAllocatedString"@ + " failed: "@ + detail@),
            },
        },
{
    assert(slots.push(slot).drop_last() =~= slots);
}

/// Names are compared character by character, place by place.
pub proof fn names_are_seen_place_by_place(names: Vec<String>, i: int, message: String)
    requires
        0 <= i < names@.len(),
    ensures
        texts_view(names@).len() == names@.len(),
        texts_view(names@)[i] == names@[i]@,
        names_view(Ok(names)) == Ok::<Seq<Seq<char>>, Seq<char>>(texts_view(names@)),
        names_view(Err(message)) == Err::<Seq<Seq<char>>, Seq<char>>(message@),
{
}

}
