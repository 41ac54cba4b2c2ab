//! Verified core of the Toucan camera server.

pub mod backends;
pub mod base64url;
pub mod camera;
pub mod jpeg;
pub mod native;
pub mod order;
pub mod packed;
pub mod server;
pub mod sessions;
pub mod text;
