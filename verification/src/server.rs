//! What the HTTP server decides: who is let in, which device a request is for, and how frames
//! are framed.

use crate::camera;
use crate::camera::{CameraError, CameraErrorView, DeviceId};
use crate::text;
use vstd::prelude::*;
use vstd::utf8::*;

verus! {

// ---------------------------------------------------------------------------
// Authentication
// ---------------------------------------------------------------------------

/// The status with which a request without a valid token is answered.
pub const FORBIDDEN: u16 = 403;

/// An optional text by its view.
pub open spec fn optional_text(text: Option<&str>) -> Option<Seq<char>> {
    match text {
        Some(t) => Some(t@),
        None => None,
    }
}

/// Whether a request presents the token, in its `Authorization` header or in its `token` query
/// parameter.
pub open spec fn presents_token(
    token: Seq<char>,
    authorization: Option<Seq<char>>,
    query_token: Option<Seq<char>>,
) -> bool {
    ||| authorization == Some("Bearer "@ + token)
    ||| query_token == Some(token)
}

/// The status with which a request is refused, or `None` where it is let in.
pub fn refusal(token: &str, authorization: Option<&str>, query_token: Option<&str>) -> (status:
    Option<u16>)
    ensures
        status == if presents_token(
            token@,
            optional_text(authorization),
            optional_text(query_token),
        ) {
            None
        } else {
            Some(FORBIDDEN)
        },
{
    if let Some(header) = authorization {
        let expected = text::joined("Bearer ", token);
        if text::same_text(header, expected.as_str()) {
            return None;
        }
    }
    if let Some(given) = query_token {
        if text::same_text(given, token) {
            return None;
        }
    }
    Some(FORBIDDEN)
}

/// A request that presents nothing is refused, whatever the token is.
pub proof fn a_missing_token_is_refused(token: Seq<char>)
    ensures
        !presents_token(token, None, None),
{
}

/// A request that presents another token is refused, whichever way it does so.
pub proof fn a_wrong_token_is_refused(token: Seq<char>, other: Seq<char>)
    requires
        other != token,
    ensures
        !presents_token(token, Some("Bearer "@ + other), None),
        !presents_token(token, None, Some(other)),
        !presents_token(token, Some("Bearer "@ + other), Some(other)),
{
    let n = "Bearer "@.len() as int;
    assert(("Bearer "@ + other).skip(n) =~= other);
    assert(("Bearer "@ + token).skip(n) =~= token);
}

/// Whether the argument at `i` is followed by the token.
pub open spec fn names_token(args: Seq<String>, i: int) -> bool {
    0 <= i && i + 1 < args.len() && args[i]@ == "--token"@
}

/// The token that is given on the command line, behind the first `--token`.
pub fn token_argument(args: &Vec<String>) -> (token: Option<String>)
    ensures
        match token {
            Some(t) => exists|i: int|
                {
                    &&& #[trigger] names_token(args@, i)
                    &&& t@ == args@[i + 1]@
                    &&& forall|j: int| 0 <= j < i ==> !#[trigger] names_token(args@, j)
                },
            None => forall|i: int| !#[trigger] names_token(args@, i),
        },
{
    let mut i: usize = 0;
    while i < args.len()
        invariant
            i <= args@.len(),
            forall|j: int| 0 <= j < i ==> !#[trigger] names_token(args@, j),
        decreases args@.len() - i,
    {
        if text::same_text(args[i].as_str(), "--token") && i + 1 < args.len() {
            assert(names_token(args@, i as int));
            return Some(args[i + 1].clone());
        }
        i += 1;
    }
    None
}

/// The token of the server: the one that is given on the command line, or else the generated one.
pub fn chosen_token(args: &Vec<String>, generated: String) -> (token: String)
    ensures
        (forall|i: int| !#[trigger] names_token(args@, i)) ==> token@ == generated@,
        forall|i: int|
            #[trigger] names_token(args@, i) && (forall|j: int|
                0 <= j < i ==> !#[trigger] names_token(args@, j)) ==> token@ == args@[i + 1]@,
{
    match token_argument(args) {
        Some(token) => {
            proof {
                let k = choose|k: int|
                    {
                        &&& #[trigger] names_token(args@, k)
                        &&& token@ == args@[k + 1]@
                        &&& forall|j: int| 0 <= j < k ==> !#[trigger] names_token(args@, j)
                    };
                assert forall|i: int|
                    #[trigger] names_token(args@, i) && (forall|j: int|
                        0 <= j < i ==> !#[trigger] names_token(args@, j)) implies token@
                    == args@[i + 1]@ by {
                    if k < i {
                        assert(!names_token(args@, k));
                    }
                    if i < k {
                        assert(!names_token(args@, i));
                    }
                }
            }
            token
        },
        None => generated,
    }
}

/// What the server prints when it is ready: the URL that is enough to use it.
pub fn listening_line(address: &str, token: &str) -> (line: String)
    ensures
        line@ == "Listening on http://"@ + address@ + "/?token="@ + token@,
{
    let base = text::joined("Listening on http://", address);
    text::joined3(base.as_str(), "/?token=", token)
}

// ---------------------------------------------------------------------------
// Requests
// ---------------------------------------------------------------------------

/// What the server says about itself.
#[derive(Debug, PartialEq, Eq)]
pub struct HealthCheck {
    pub status: String,
    pub service: String,
    pub version: String,
}

/// What the server of this version says about itself.
pub fn health(version: &str) -> (check: HealthCheck)
    ensures
        check.status@ == "ok"@,
        check.service@ == "bird-camera-server"@,
        check.version@ == version@,
{
    HealthCheck {
        status: "ok".to_owned(),
        service: "bird-camera-server".to_owned(),
        version: version.to_owned(),
    }
}

/// The device that a request is for.
#[derive(Debug, PartialEq, Eq)]
pub struct Route {
    /// The place of its backend.
    pub backend: usize,
    pub native_id: String,
}

/// Whether the backend at `i` is the first of this name.
pub open spec fn is_backend(backends: Seq<String>, i: int, name: Seq<char>) -> bool {
    &&& 0 <= i < backends.len()
    &&& backends[i]@ == name
    &&& forall|j: int| 0 <= j < i ==> (#[trigger] backends[j])@ != name
}

/// Whether a backend has this name.
pub open spec fn has_backend(backends: Seq<String>, name: Seq<char>) -> bool {
    exists|i: int| 0 <= i < backends.len() && (#[trigger] backends[i])@ == name
}

/// Finds the device that the identifier in a request stands for.
pub fn route(backends: &Vec<String>, encoded: &str) -> (route: Result<Route, CameraError>)
    ensures
        match route {
            Ok(r) => {
                let name = backends@[r.backend as int]@;
                &&& is_backend(backends@, r.backend as int, name)
                &&& camera::decodes_to(encoded@, name, r.native_id@)
            },
            Err(CameraError::InvalidDeviceId) => forall|name: Seq<char>, native_id: Seq<char>|
                !#[trigger] camera::decodes_to(encoded@, name, native_id),
            Err(e) => exists|name: Seq<char>, native_id: Seq<char>|
                {
                    &&& #[trigger] camera::decodes_to(encoded@, name, native_id)
                    &&& !has_backend(backends@, name)
                    &&& e@ == CameraErrorView::DeviceNotFound(native_id)
                },
        },
{
    let id = match DeviceId::decode(encoded) {
        Ok(id) => id,
        Err(_) => {
            return Err(CameraError::InvalidDeviceId);
        },
    };
    let ghost name = id.backend@;
    assert(camera::decodes_to(encoded@, name, id.native_id@));
    let mut i: usize = 0;
    while i < backends.len()
        invariant
            i <= backends@.len(),
            name == id.backend@,
            camera::decodes_to(encoded@, name, id.native_id@),
            forall|j: int| 0 <= j < i ==> (#[trigger] backends@[j])@ != name,
        decreases backends@.len() - i,
    {
        if text::same_text(backends[i].as_str(), id.backend.as_str()) {
            return Ok(Route { backend: i, native_id: id.native_id });
        }
        i += 1;
    }
    assert(!has_backend(backends@, name));
    Err(CameraError::DeviceNotFound(id.native_id))
}

/// The identifier that clients are told of a device leads to that device: whatever it is found
/// to stand for is the device itself.
pub proof fn a_listed_identifier_leads_to_its_device(
    backend: Seq<char>,
    native_id: Seq<char>,
    name: Seq<char>,
    found: Seq<char>,
)
    requires
        !backend.contains(':'),
        camera::decodes_to(camera::encoded_id(backend, native_id), name, found),
    ensures
        name == backend,
        found == native_id,
{
    camera::encoded_id_round_trip(backend, native_id);
}

// ---------------------------------------------------------------------------
// Live view
// ---------------------------------------------------------------------------

/// What stands before a frame of `len` bytes in a multipart stream.
pub open spec fn part_header(len: nat) -> Seq<char> {
    "--frame\r\nContent-Type: image/jpeg\r\nContent-Length: "@ + text::decimal(len) + "\r\n\r\n"@
}

/// A frame as it is sent in a multipart stream with the boundary `frame`.
pub open spec fn part(frame: Seq<u8>) -> Seq<u8> {
    encode_utf8(part_header(frame.len())) + frame + encode_utf8("\r\n"@)
}

fn append_bytes(all: &mut Vec<u8>, more: &[u8])
    ensures
        final(all)@ == old(all)@ + more@,
{
    let ghost before = all@;
    let mut i: usize = 0;
    assert(before + more@.take(0) =~= before);
    while i < more.len()
        invariant
            i <= more@.len(),
            all@ == before + more@.take(i as int),
        decreases more@.len() - i,
    {
        all.push(more[i]);
        i += 1;
        assert(all@ =~= before + more@.take(i as int));
    }
    assert(more@.take(i as int) =~= more@);
}

/// Frames a JPEG file for a multipart stream.
pub fn mjpeg_part(frame: &[u8]) -> (bytes: Vec<u8>)
    ensures
        bytes@ == part(frame@),
{
    let header = text::joined3(
        "--frame\r\nContent-Type: image/jpeg\r\nContent-Length: ",
        text::decimal_text(frame.len() as u64).as_str(),
        "\r\n\r\n",
    );
    let mut bytes: Vec<u8> = Vec::new();
    append_bytes(&mut bytes, header.as_str().as_bytes());
    append_bytes(&mut bytes, frame);
    append_bytes(&mut bytes, "\r\n".as_bytes());
    assert(bytes@ =~= part(frame@));
    bytes
}

// ---------------------------------------------------------------------------
// Laws
// ---------------------------------------------------------------------------

/// The token lets a request in, whether it stands in the header or in the query and whatever else
/// the request presents. A request is let in by one of the two alone.
pub proof fn the_token_lets_in(
    token: Seq<char>,
    authorization: Option<Seq<char>>,
    query_token: Option<Seq<char>>,
)
    ensures
        presents_token(
            token,
            Some(seq!['B', 'e', 'a', 'r', 'e', 'r', ' '] + token),
            query_token,
        ),
        presents_token(token, authorization, Some(token)),
        presents_token(token, authorization, query_token) <==> presents_token(
            token,
            authorization,
            None,
        ) || presents_token(token, None, query_token),
        !presents_token(token, None, None),
{
    reveal_strlit("Bearer ");
    assert("Bearer "@ =~= seq!['B', 'e', 'a', 'r', 'e', 'r', ' ']);
}

/// Nothing but the token lets in: a header has to be `Bearer`, a space and the token, and a query
/// token has to be the token itself.
pub proof fn nothing_else_lets_in(token: Seq<char>, presented: Seq<char>)
    ensures
        presents_token(token, Some(presented), None) ==> presented == seq![
            'B',
            'e',
            'a',
            'r',
            'e',
            'r',
            ' ',
        ] + token,
        presents_token(token, None, Some(presented)) ==> presented == token,
{
    reveal_strlit("Bearer ");
    assert("Bearer "@ =~= seq!['B', 'e', 'a', 'r', 'e', 'r', ' ']);
}

/// The token on the command line is the argument behind one that reads `--token`; at the end of
/// the line there is none.
pub proof fn the_token_follows_its_argument(args: Seq<String>, i: int)
    ensures
        names_token(args, i) <==> 0 <= i < args.len() - 1 && args[i]@ == seq![
            '-',
            '-',
            't',
            'o',
            'k',
            'e',
            'n',
        ],
{
    reveal_strlit("--token");
    assert("--token"@ =~= seq!['-', '-', 't', 'o', 'k', 'e', 'n']);
}

/// A request goes to the first backend of its name, and a name has a backend where one of the
/// backends has it.
pub proof fn requests_go_to_the_first_backend_of_their_name(
    backends: Seq<String>,
    last: String,
    name: Seq<char>,
)
    ensures
        !has_backend(Seq::empty(), name),
        has_backend(backends.push(last), name) <==> has_backend(backends, name) || last@ == name,
        is_backend(backends.push(last), backends.len() as int, name) <==> last@ == name
            && !has_backend(backends, name),
        forall|i: int|
            0 <= i < backends.len() ==> #[trigger] is_backend(backends.push(last), i, name)
                == is_backend(backends, i, name),
        forall|i: int| i < 0 || i > backends.len() ==> !#[trigger] is_backend(
            backends.push(last),
            i,
            name,
        ),
{
    let all = backends.push(last);
    if has_backend(backends, name) {
        let i = choose|i: int| 0 <= i < backends.len() && (#[trigger] backends[i])@ == name;
        assert(all[i]@ == name);
    }
    if has_backend(all, name) {
        let i = choose|i: int| 0 <= i < all.len() && (#[trigger] all[i])@ == name;
        if i < backends.len() {
            assert(backends[i]@ == name);
        }
    }
    if last@ == name {
        assert(all[backends.len() as int]@ == name);
    }
    assert forall|i: int| 0 <= i < backends.len() implies #[trigger] is_backend(all, i, name)
        == is_backend(backends, i, name) by {
        assert forall|j: int| 0 <= j < i implies all[j] == backends[j] by {}
        if is_backend(all, i, name) {
            assert forall|j: int| 0 <= j < i implies (#[trigger] backends[j])@ != name by {
                assert(all[j]@ != name);
            }
        }
    }
    if is_backend(all, backends.len() as int, name) {
        assert forall|j: int| 0 <= j < backends.len() implies (#[trigger] backends[j])@ != name by {
            assert(all[j]@ != name);
        }
    }
}

/// A frame stands unchanged in its part of the stream: behind the boundary, the type and its
/// length, and before the end of the line.
pub proof fn a_frame_stands_unchanged_in_its_part(frame: Seq<u8>)
    ensures
        ({
            let header = encode_utf8(
                "--frame\r\nContent-Type: image/jpeg\r\nContent-Length: "@ + text::decimal(
                    frame.len(),
                ) + "\r\n\r\n"@,
            );
            let sent = part(frame);
            &&& sent.take(header.len() as int) == header
            &&& sent.subrange(header.len() as int, (header.len() + frame.len()) as int) == frame
            &&& sent.skip((header.len() + frame.len()) as int) == encode_utf8(seq!['\r', '\n'])
        }),
{
    reveal_strlit("\r\n");
    assert("\r\n"@ =~= seq!['\r', '\n']);
    let header = encode_utf8(
        "--frame\r\nContent-Type: image/jpeg\r\nContent-Length: "@ + text::decimal(frame.len())
            + "\r\n\r\n"@,
    );
    let sent = part(frame);
    let end = (header.len() + frame.len()) as int;
    assert(sent.take(header.len() as int) =~= header);
    assert(sent.subrange(header.len() as int, end) =~= frame);
    assert(sent.skip(end) =~= encode_utf8(seq!['\r', '\n']));
}

/// What a request presents is compared as it is, an empty text too.
pub proof fn what_is_presented_is_seen_as_it_is(presented: &str)
    ensures
        optional_text(Some(presented)) == Some(presented@),
        optional_text(None) is None,
{
}

}
