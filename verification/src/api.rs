//! The GPGME operations, each on the library's own values: the C entry
//! points of the same names take their pointers apart and call these.

pub mod ctx;
pub mod data;
pub mod keys;
pub mod import_export;
pub mod ops;
pub mod engine;
pub mod misc;
