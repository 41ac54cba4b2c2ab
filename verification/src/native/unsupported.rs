//! What there is of native cameras on systems other than Windows.

use crate::native::CameraInfo;
use vstd::prelude::*;

verus! {

/// The message that every request is answered with.
pub open spec fn message() -> Seq<char> {
    "native camera bindings are currently only implemented on Windows"@
}

/// No cameras can be listed.
pub fn list_cameras() -> (cameras: Result<Vec<CameraInfo>, String>)
    ensures
        cameras matches Err(m) && m@ == message(),
{
    Err("native camera bindings are currently only implemented on Windows".to_owned())
}

/// No photo can be taken.
pub fn capture_photo_jpeg(camera_id: &str) -> (photo: Result<Vec<u8>, String>)
    ensures
        photo matches Err(m) && m@ == message(),
{
    Err("native camera bindings are currently only implemented on Windows".to_owned())
}

}
