//! Reader for the TIFF tag structure used by raw-image containers: a
//! byte-order-aware cursor over an in-memory byte source, a header parser,
//! typed tag-entry decoders, and a walker for the chain of image file
//! directories.

pub mod byte_stream;
pub mod error;
pub mod tiff;
