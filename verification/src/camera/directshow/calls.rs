//! The DirectShow calls whose failure is reported.

use crate::camera::indexed;
use crate::camera::{CameraError, CameraErrorView};
use vstd::prelude::*;

verus! {

/// A call into DirectShow.
#[derive(Debug, Clone, Copy, PartialEq, Eq, Structural)]
pub enum DirectShowCall {
    Initialize,
    CreateDeviceEnum,
    CreateClassEnumerator,
    NextMoniker,
    DisplayName,
    CreateGraph,
    AddSource,
    EnumPins,
    NextPin,
    QueryDirection,
    Render,
    MediaControl,
    Run,
    BasicVideo,
    ImageSize,
    ImageData,
}

impl DirectShowCall {
    /// What messages call it.
    pub open spec fn title(self) -> Seq<char> {
        match self {
            DirectShowCall::Initialize => "CoInitializeEx"@,
            DirectShowCall::CreateDeviceEnum => "CoCreateInstance(SystemDeviceEnum)"@,
            DirectShowCall::CreateClassEnumerator => "CreateClassEnumerator"@,
            DirectShowCall::NextMoniker => "IEnumMoniker::Next"@,
            DirectShowCall::DisplayName => "IMoniker::GetDisplayName"@,
            DirectShowCall::CreateGraph => "CoCreateInstance(FilterGraph)"@,
            DirectShowCall::AddSource => "AddSourceFilterForMoniker"@,
            DirectShowCall::EnumPins => "EnumPins"@,
            DirectShowCall::NextPin => "IEnumPins::Next"@,
            DirectShowCall::QueryDirection => "QueryDirection"@,
            DirectShowCall::Render => "graph render"@,
            DirectShowCall::MediaControl => "IMediaControl cast"@,
            DirectShowCall::Run => "graph run"@,
            DirectShowCall::BasicVideo => "IBasicVideo cast"@,
            DirectShowCall::ImageSize => "GetCurrentImage(size)"@,
            DirectShowCall::ImageData => "GetCurrentImage(data)"@,
        }
    }

    /// The error where the call fails.
    pub open spec fn failure(self, detail: Seq<char>) -> CameraErrorView {
        CameraErrorView::BackendFailure(indexed::failed_message(self.title(), detail))
    }

    /// The error where the call fails.
    pub fn failed(self, detail: &str) -> (e: CameraError)
        ensures
            e@ == self.failure(detail@),
    {
        let title = match self {
            DirectShowCall::Initialize => "CoInitializeEx",
            DirectShowCall::CreateDeviceEnum => "CoCreateInstance(SystemDeviceEnum)",
            DirectShowCall::CreateClassEnumerator => "CreateClassEnumerator",
            DirectShowCall::NextMoniker => "IEnumMoniker::Next",
            DirectShowCall::DisplayName => "IMoniker::GetDisplayName",
            DirectShowCall::CreateGraph => "CoCreateInstance(FilterGraph)",
            DirectShowCall::AddSource => "AddSourceFilterForMoniker",
            DirectShowCall::EnumPins => "EnumPins",
            DirectShowCall::NextPin => "IEnumPins::Next",
            DirectShowCall::QueryDirection => "QueryDirection",
            DirectShowCall::Render => "graph render",
            DirectShowCall::MediaControl => "IMediaControl cast",
            DirectShowCall::Run => "graph run",
            DirectShowCall::BasicVideo => "IBasicVideo cast",
            DirectShowCall::ImageSize => "GetCurrentImage(size)",
            DirectShowCall::ImageData => "GetCurrentImage(data)",
        };
        indexed::call_failed(title, detail)
    }
}

/// What an enumerator said when it was asked for its next item.
#[derive(Debug, PartialEq, Eq)]
pub enum FetchStatus {
    Success,
    /// There were not as many items as it was asked for.
    Exhausted,
    /// The call failed, with this message.
    Failed(String),
}

/// What asking an enumerator for its next item gave.
#[derive(Debug, PartialEq, Eq)]
pub struct Fetch {
    pub status: FetchStatus,
    pub fetched: u32,
    pub has_item: bool,
}

/// A failed call is reported by its title and the detail.
pub proof fn a_failed_call_is_reported(call: DirectShowCall, detail: Seq<char>)
    ensures
        call.failure(detail) == CameraErrorView::BackendFailure(
            call.title() + " failed: "@ + detail,
        ),
{
}

}
