//! The camera backends: what each decides between the calls into its SDK.

pub mod actor;
pub mod avfoundation;
pub mod canon;
pub mod webcam_windows;
