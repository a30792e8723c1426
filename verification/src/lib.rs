//! Width and height of an image file, read from as few bytes as possible.
//!
//! `scanner::Scanner` decides, from the first bytes of a file and the replies to
//! its requests, where to read next and, in the end, the size of the image;
//! `scanner::spec_imsz` states that size in terms of the file's bytes, and
//! `sizes` proves, format by format, where in those bytes it stands.
pub mod avif;
pub mod bytes;
pub mod exr;
pub mod format;
pub mod ico;
pub mod jpeg;
pub mod laws;
pub mod preamble;
pub mod protocol;
pub mod scanner;
pub mod sizes;
pub mod tiff;

pub use bytes::get_array;
pub use format::{ImError, ImFormat, ImInfo, ImResult};
pub use scanner::Scanner;
