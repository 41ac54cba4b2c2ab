//! Device identifiers, and the types that every camera backend shares.

pub mod directshow;
pub mod indexed;
pub mod media_foundation;

use crate::base64url;
use crate::text;
use vstd::prelude::*;
use vstd::utf8::*;

verus! {

// ---------------------------------------------------------------------------
// Opaque device ID
// ---------------------------------------------------------------------------

/// Opaque, URL-safe device identifier exposed by the API.
///
/// Encodes the backend name and the backend-native device ID as
/// `base64url(backend:native_id)`, e.g. `base64url("canon:USB:0,1,0")`.
/// This avoids URL-encoding issues and hides internal identifiers from clients.
#[derive(Debug, PartialEq, Eq)]
pub struct DeviceId {
    pub backend: String,
    pub native_id: String,
}

/// The opaque text of the device `native_id` of `backend`.
pub open spec fn encoded_id(backend: Seq<char>, native_id: Seq<char>) -> Seq<char> {
    base64url::base64url(encode_utf8(backend + seq![':'] + native_id))
}

/// Whether `encoded` stands for the device `native_id` of `backend`: the name of the backend
/// ends at the first colon.
pub open spec fn decodes_to(
    encoded: Seq<char>,
    backend: Seq<char>,
    native_id: Seq<char>,
) -> bool {
    &&& !backend.contains(':')
    &&& encoded_id(backend, native_id) == encoded
}

impl DeviceId {
    pub fn new(backend: &str, native_id: &str) -> (id: Self)
        ensures
            id.backend@ == backend@,
            id.native_id@ == native_id@,
    {
        DeviceId { backend: backend.to_owned(), native_id: native_id.to_owned() }
    }

    /// Encodes to the opaque string sent to clients.
    pub fn encode(&self) -> (encoded: String)
        ensures
            encoded@ == encoded_id(self.backend@, self.native_id@),
    {
        let text = text::joined3(self.backend.as_str(), ":", self.native_id.as_str());
        proof {
            reveal_strlit(":");
            assert(":"@ =~= seq![':']);
        }
        base64url::encode_url_safe(text.as_str().as_bytes())
    }

    /// Decodes an opaque string received from a client.
    pub fn decode(encoded: &str) -> (id: Result<Self, CameraError>)
        ensures
            match id {
                Ok(id) => decodes_to(encoded@, id.backend@, id.native_id@),
                Err(e) => {
                    &&& e is InvalidDeviceId
                    &&& forall|backend: Seq<char>, native_id: Seq<char>|
                        !#[trigger] decodes_to(encoded@, backend, native_id)
                },
            },
    {
        let bytes = match base64url::decode_url_safe(encoded) {
            Some(bytes) => bytes,
            None => {
                return Err(CameraError::InvalidDeviceId);
            },
        };
        let ghost raw = bytes@;
        proof {
            assert forall|backend: Seq<char>, native_id: Seq<char>|
                #[trigger] decodes_to(encoded@, backend, native_id) implies raw == encode_utf8(
                backend + seq![':'] + native_id,
            ) by {
                base64url::base64url_is_injective(raw, encode_utf8(backend + seq![':'] + native_id));
            }
        }
        let text = match text::utf8_text(bytes) {
            Some(text) => text,
            None => {
                proof {
                    assert forall|backend: Seq<char>, native_id: Seq<char>|
                        !#[trigger] decodes_to(encoded@, backend, native_id) by {
                        encode_utf8_valid_utf8(backend + seq![':'] + native_id);
                    }
                }
                return Err(CameraError::InvalidDeviceId);
            },
        };
        proof {
            decode_utf8_encode_utf8(raw);
            assert forall|backend: Seq<char>, native_id: Seq<char>|
                #[trigger] decodes_to(encoded@, backend, native_id) implies text@ == backend
                + seq![':'] + native_id by {
                encode_utf8_decode_utf8(backend + seq![':'] + native_id);
            }
        }
        let chars = text::chars_of(text.as_str());
        let mut i: usize = 0;
        while i < chars.len()
            invariant
                i <= chars@.len(),
                chars@ == text@,
                encode_utf8(text@) == raw,
                base64url::base64url(raw) == encoded@,
                forall|j: int| 0 <= j < i ==> chars@[j] != ':',
            decreases chars@.len() - i,
        {
            if chars[i] == ':' {
                let backend = text::text_between(&chars, 0, i);
                let native_id = text::text_between(&chars, i + 1, chars.len());
                assert(backend@ + seq![':'] + native_id@ =~= text@);
                return Ok(DeviceId { backend, native_id });
            }
            i += 1;
        }
        proof {
            assert forall|backend: Seq<char>, native_id: Seq<char>|
                !#[trigger] decodes_to(encoded@, backend, native_id) by {
                if decodes_to(encoded@, backend, native_id) {
                    assert(text@[backend.len() as int] == ':');
                }
            }
        }
        Err(CameraError::InvalidDeviceId)
    }
}

/// What a client is sent for a device stands for that device and for no other, wherever the
/// name of the backend holds no colon.
pub proof fn encoded_id_round_trip(backend: Seq<char>, native_id: Seq<char>)
    requires
        !backend.contains(':'),
    ensures
        decodes_to(encoded_id(backend, native_id), backend, native_id),
        forall|b: Seq<char>, n: Seq<char>|
            #[trigger] decodes_to(encoded_id(backend, native_id), b, n) ==> b == backend && n
                == native_id,
{
    assert forall|b: Seq<char>, n: Seq<char>|
        #[trigger] decodes_to(encoded_id(backend, native_id), b, n) implies b == backend && n
        == native_id by {
        let whole = backend + seq![':'] + native_id;
        let other = b + seq![':'] + n;
        base64url::base64url_is_injective(encode_utf8(whole), encode_utf8(other));
        text::lemma_utf8_injective(whole, other);
        if b.len() < backend.len() {
            assert(whole[b.len() as int] == ':');
            assert(backend[b.len() as int] == ':');
        }
        if backend.len() < b.len() {
            assert(other[backend.len() as int] == ':');
            assert(b[backend.len() as int] == ':');
        }
        assert(b =~= whole.take(b.len() as int));
        assert(n =~= whole.skip(b.len() as int + 1));
        assert(backend =~= whole.take(backend.len() as int));
        assert(native_id =~= whole.skip(backend.len() as int + 1));
    }
}

/// Two devices whose backends have no colon in their names share an opaque identifier only
/// if they are the same device.
pub proof fn encoded_ids_are_distinct(
    backend: Seq<char>,
    native_id: Seq<char>,
    other_backend: Seq<char>,
    other_native_id: Seq<char>,
)
    requires
        !backend.contains(':'),
        !other_backend.contains(':'),
        encoded_id(backend, native_id) == encoded_id(other_backend, other_native_id),
    ensures
        backend == other_backend,
        native_id == other_native_id,
{
    encoded_id_round_trip(backend, native_id);
    assert(decodes_to(encoded_id(backend, native_id), other_backend, other_native_id));
}

/// An opaque identifier holds only characters that can stand in a URL as they are.
pub proof fn encoded_id_is_url_safe(backend: Seq<char>, native_id: Seq<char>)
    ensures
        forall|i: int|
            0 <= i < encoded_id(backend, native_id).len() ==> base64url::is_url_safe(
                #[trigger] encoded_id(backend, native_id)[i],
            ),
{
    base64url::base64url_is_url_safe(encode_utf8(backend + seq![':'] + native_id));
}

// ---------------------------------------------------------------------------
// Shared types
// ---------------------------------------------------------------------------

/// Device information returned by `list_devices`.
/// The `id` field is the opaque encoded ID suitable for use in subsequent API calls.
#[derive(Debug, Clone, PartialEq, Eq)]
pub struct DeviceInfo {
    /// Opaque, URL-safe device identifier (base64url encoded).
    pub id: String,
    /// Human-readable device name (e.g. "Canon EOS R5").
    pub name: String,
    /// Whether a session is currently open with this device.
    pub connected: bool,
}

/// The mathematical content of a [`DeviceInfo`].
pub struct DeviceInfoView {
    pub id: Seq<char>,
    pub name: Seq<char>,
    pub connected: bool,
}

impl View for DeviceInfo {
    type V = DeviceInfoView;

    open spec fn view(&self) -> DeviceInfoView {
        DeviceInfoView { id: self.id@, name: self.name@, connected: self.connected }
    }
}

/// One allowed value for a camera parameter.
#[derive(Debug, Clone, PartialEq, Eq)]
pub struct ParameterOption {
    /// Human-readable label (e.g. "f/5.6", "1/500", "ISO 400").
    pub label: String,
    /// Raw SDK code to pass back when setting the parameter.
    pub value: i32,
}

/// A single settable camera parameter with its current value and allowed options.
///
/// Discrete params (e.g. focus mode) set `options` and leave `min`/`max`/`step` as `None`.
/// Range params (e.g. brightness, zoom) set `min`/`max`/`step` and leave `options` empty.
#[derive(Debug, Clone, PartialEq, Eq)]
pub struct CameraParameter {
    /// Parameter identifier (e.g. "brightness", "zoom_absolute").
    pub kind: String,
    /// Current value: label for discrete params, stringified integer for range params.
    pub current: String,
    /// Allowed values for discrete params; empty for range params.
    pub options: Vec<ParameterOption>,
    pub min: Option<i32>,
    pub max: Option<i32>,
    pub step: Option<i32>,
}

impl CameraParameter {
    /// Whether the parameter offers a choice between options.
    pub open spec fn is_discrete(self) -> bool {
        &&& self.options@.len() > 0
        &&& self.min is None
        &&& self.max is None
        &&& self.step is None
    }
}

/// A camera as the index-based backends list it.
#[derive(Debug, PartialEq, Eq)]
pub struct CameraDevice {
    pub raw_id: String,
    pub name: String,
}

/// The size of a frame in pixels.
#[derive(Debug, Clone, Copy, PartialEq, Eq, Structural)]
pub struct CameraResolution {
    pub width: u32,
    pub height: u32,
}

#[derive(Debug, PartialEq, Eq)]
pub enum CameraError {
    SdkError(u32),
    DeviceNotFound(String),
    InvalidDeviceId,
    NotConnected,
    NotSupported,
    BackendFailure(String),
    InvalidCameraId(String),
    CameraNotFound(String),
    CameraNotConnected(String),
    BackendUnavailable(String),
}

/// The mathematical content of a [`CameraError`].
pub enum CameraErrorView {
    SdkError(u32),
    DeviceNotFound(Seq<char>),
    InvalidDeviceId,
    NotConnected,
    NotSupported,
    BackendFailure(Seq<char>),
    InvalidCameraId(Seq<char>),
    CameraNotFound(Seq<char>),
    CameraNotConnected(Seq<char>),
    BackendUnavailable(Seq<char>),
}

impl View for CameraError {
    type V = CameraErrorView;

    open spec fn view(&self) -> CameraErrorView {
        match *self {
            CameraError::SdkError(code) => CameraErrorView::SdkError(code),
            CameraError::DeviceNotFound(id) => CameraErrorView::DeviceNotFound(id@),
            CameraError::InvalidDeviceId => CameraErrorView::InvalidDeviceId,
            CameraError::NotConnected => CameraErrorView::NotConnected,
            CameraError::NotSupported => CameraErrorView::NotSupported,
            CameraError::BackendFailure(m) => CameraErrorView::BackendFailure(m@),
            CameraError::InvalidCameraId(m) => CameraErrorView::InvalidCameraId(m@),
            CameraError::CameraNotFound(m) => CameraErrorView::CameraNotFound(m@),
            CameraError::CameraNotConnected(m) => CameraErrorView::CameraNotConnected(m@),
            CameraError::BackendUnavailable(m) => CameraErrorView::BackendUnavailable(m@),
        }
    }
}

impl CameraErrorView {
    /// What a client is told about the error.
    pub open spec fn message(self) -> Seq<char> {
        match self {
            CameraErrorView::SdkError(code) => "SDK error: "@ + (seq!['0', 'x'] + text::zero_padded(
                text::lower_hex(code as nat),
                8,
            )),
            CameraErrorView::DeviceNotFound(id) => "device not found: "@ + id,
            CameraErrorView::InvalidDeviceId => "invalid device id"@,
            CameraErrorView::NotConnected => "no session open for this device"@,
            CameraErrorView::NotSupported => "operation not supported by this backend"@,
            CameraErrorView::BackendFailure(m) => m,
            CameraErrorView::InvalidCameraId(m) => m,
            CameraErrorView::CameraNotFound(m) => m,
            CameraErrorView::CameraNotConnected(m) => m,
            CameraErrorView::BackendUnavailable(m) => m,
        }
    }
}

impl CameraError {
    /// What a client is told about the error.
    pub fn message(&self) -> (message: String)
        ensures
            message@ == self@.message(),
    {
        match self {
            CameraError::SdkError(code) => text::joined("SDK error: ", text::status_text(*code).as_str()),
            CameraError::DeviceNotFound(id) => text::joined("device not found: ", id.as_str()),
            CameraError::InvalidDeviceId => "invalid device id".to_owned(),
            CameraError::NotConnected => "no session open for this device".to_owned(),
            CameraError::NotSupported => "operation not supported by this backend".to_owned(),
            CameraError::BackendFailure(m) => m.clone(),
            CameraError::InvalidCameraId(m) => m.clone(),
            CameraError::CameraNotFound(m) => m.clone(),
            CameraError::CameraNotConnected(m) => m.clone(),
            CameraError::BackendUnavailable(m) => m.clone(),
        }
    }
}

/// A result with both of its sides replaced by their views.
pub open spec fn viewed<T: View>(r: Result<T, CameraError>) -> Result<T::V, CameraErrorView> {
    match r {
        Ok(v) => Ok(v@),
        Err(e) => Err(e@),
    }
}

/// A result with its error replaced by its view.
pub open spec fn viewed_plain<T>(r: Result<T, CameraError>) -> Result<T, CameraErrorView> {
    match r {
        Ok(v) => Ok(v),
        Err(e) => Err(e@),
    }
}

// ---------------------------------------------------------------------------
// Trait
// ---------------------------------------------------------------------------

/// Common interface every camera backend must implement.
///
/// Backends work exclusively with native IDs (e.g. Canon port names).
/// Opaque ID encoding/decoding is handled by the route layer.
pub trait CameraBackend: Send + Sync {
    /// Unique name of this backend (e.g. `"canon"`). Used to build opaque device IDs.
    fn backend_id(&self) -> &str;

    /// Returns all devices currently visible to this backend.
    /// The `DeviceInfo.id` field contains the already-encoded opaque ID.
    fn list_devices(&self) -> Result<Vec<DeviceInfo>, CameraError>;

    /// Opens a session with the device identified by `native_id`.
    /// Connecting an already-connected device is a no-op.
    fn connect(&self, native_id: &str) -> Result<(), CameraError>;

    /// Closes the session with the device identified by `native_id`.
    fn disconnect(&self, native_id: &str) -> Result<(), CameraError>;

    /// Returns true if a session is currently open for `native_id`.
    fn is_connected(&self, native_id: &str) -> bool;

    /// Returns all currently settable parameters with their allowed values.
    /// The device must be connected before calling this.
    fn get_parameters(&self, native_id: &str) -> Result<Vec<CameraParameter>, CameraError>;

    /// Captures a single live view frame and returns it as raw JPEG bytes.
    /// The device must be connected before calling this.
    fn get_live_view_frame(&self, native_id: &str) -> Result<Vec<u8>, CameraError>;

    /// Sets a camera parameter by its type name and raw SDK value.
    /// The device must be connected before calling this.
    fn set_parameter(&self, native_id: &str, kind: &str, value: i32) -> Result<(), CameraError>;
}

// ---------------------------------------------------------------------------
// Laws
// ---------------------------------------------------------------------------

/// An identifier is the base64 of the backend, a colon and the device; which colon of a text
/// parts the two does not matter to it.
pub proof fn an_identifier_is_the_base64_of_backend_and_device(
    backend: Seq<char>,
    middle: Seq<char>,
    native_id: Seq<char>,
)
    ensures
        encoded_id(backend, native_id) == base64url::base64url(
            encode_utf8(backend.push(':') + native_id),
        ),
        encoded_id(backend.push(':') + middle, native_id) == encoded_id(
            backend,
            middle.push(':') + native_id,
        ),
{
    assert(backend + seq![':'] + native_id =~= backend.push(':') + native_id);
    assert(backend.push(':') + middle + seq![':'] + native_id =~= backend + seq![':'] + (
    middle.push(':') + native_id));
}

/// A text is decoded exactly where it is the base64 of a text with a colon: the backend is what
/// stands before the first colon, and the device what stands behind it.
pub proof fn identifiers_are_parted_at_their_first_colon(
    encoded: Seq<char>,
    backend: Seq<char>,
    native_id: Seq<char>,
)
    ensures
        decodes_to(encoded, backend, native_id) <==> {
            &&& encoded == base64url::base64url(encode_utf8(backend.push(':') + native_id))
            &&& forall|i: int| 0 <= i < backend.len() ==> backend[i] != ':'
        },
{
    assert(backend + seq![':'] + native_id =~= backend.push(':') + native_id);
    if forall|i: int| 0 <= i < backend.len() ==> backend[i] != ':' {
        assert(!backend.contains(':'));
    }
    if !backend.contains(':') {
        assert forall|i: int| 0 <= i < backend.len() implies backend[i] != ':' by {
            assert(backend.contains(backend[i]));
        }
    }
}

/// Clients are told what an error holds: the eight hexadecimal digits of a status, the device
/// that was not found, and every message as it is.
#[verifier::spinoff_prover]
#[verifier::rlimit(40)]
pub proof fn messages_tell_what_an_error_holds(code: u32, told: Seq<char>)
    ensures
        ({
            let message = CameraErrorView::SdkError(code).message();
            let intro = "SDK error: "@.len() as int;
            &&& message.len() == intro + 10
            &&& message.take(intro) == "SDK error: "@
            &&& message.subrange(intro, intro + 2) == seq!['0', 'x']
            &&& message.skip(intro + 2) == text::zero_padded(text::lower_hex(code as nat), 8)
        }),
        CameraErrorView::DeviceNotFound(told).message() == "device not found: "@ + told,
        CameraErrorView::BackendFailure(told).message() == told,
        CameraErrorView::InvalidCameraId(told).message() == told,
        CameraErrorView::CameraNotFound(told).message() == told,
        CameraErrorView::CameraNotConnected(told).message() == told,
        CameraErrorView::BackendUnavailable(told).message() == told,
{
    let message = CameraErrorView::SdkError(code).message();
    let intro = "SDK error: "@.len() as int;
    let digits = text::zero_padded(text::lower_hex(code as nat), 8);
    assert(vstd::arithmetic::power::pow(16, 8) == 0x1_0000_0000) by {
        reveal_with_fuel(vstd::arithmetic::power::pow, 9);
    }
    text::lower_hex_length(code as nat, 8);
    assert(message.take(intro) =~= "SDK error: "@);
    assert(message.subrange(intro, intro + 2) =~= seq!['0', 'x']);
    assert(message.skip(intro + 2) =~= digits);
}

/// A device and an error are compared by all that they hold.
pub proof fn devices_and_errors_are_seen_field_by_field(device: DeviceInfo, e: CameraError)
    ensures
        device@.id == device.id@,
        device@.name == device.name@,
        device@.connected == device.connected,
        match e {
            CameraError::SdkError(code) => e@ == CameraErrorView::SdkError(code),
            CameraError::DeviceNotFound(told) => e@ == CameraErrorView::DeviceNotFound(told@),
            CameraError::InvalidDeviceId => e@ is InvalidDeviceId,
            CameraError::NotConnected => e@ is NotConnected,
            CameraError::NotSupported => e@ is NotSupported,
            CameraError::BackendFailure(told) => e@ == CameraErrorView::BackendFailure(told@),
            CameraError::InvalidCameraId(told) => e@ == CameraErrorView::InvalidCameraId(told@),
            CameraError::CameraNotFound(told) => e@ == CameraErrorView::CameraNotFound(told@),
            CameraError::CameraNotConnected(told) => e@ == CameraErrorView::CameraNotConnected(
                told@,
            ),
            CameraError::BackendUnavailable(told) => e@ == CameraErrorView::BackendUnavailable(
                told@,
            ),
        },
{
}

/// A result is compared by its value or by its error.
pub proof fn results_are_seen_by_what_they_hold<T>(
    value: T,
    bytes: Vec<u8>,
    e: CameraError,
)
    ensures
        viewed_plain(Ok::<T, CameraError>(value)) == Ok::<T, CameraErrorView>(value),
        viewed_plain(Err::<T, CameraError>(e)) == Err::<T, CameraErrorView>(e@),
        viewed(Ok::<Vec<u8>, CameraError>(bytes)) == Ok::<Seq<u8>, CameraErrorView>(bytes@),
        viewed(Err::<Vec<u8>, CameraError>(e)) == Err::<Seq<u8>, CameraErrorView>(e@),
{
}

}
