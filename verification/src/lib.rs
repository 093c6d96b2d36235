//! The composition-time-to-sample table of ISO base media files, and the
//! box framing it travels in, with every function proved against a model of
//! the bytes on the wire.

pub mod ctts;
pub mod decimal;
pub mod endian;
pub mod error;
pub mod header;
pub mod laws;
pub mod reader;
pub mod value;
pub mod writer;

pub use ctts::{CttsBox, CttsEntry};
pub use error::Error;
pub use header::{
    read_box_header_ext, write_box_header_ext, BoxHeader, BoxType, HEADER_EXT_SIZE, HEADER_SIZE,
};
pub use reader::{skip_bytes_to, ByteReader};
pub use value::{Mp4Box, ReadBox, WriteBox};
