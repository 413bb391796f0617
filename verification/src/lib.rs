//! A ZIP archive encoder that never copies file data.
//!
//! `ZipArchive` is a sans-IO encoder: it writes the ZIP framing (local
//! headers, data descriptors, central directory and end records) into a
//! caller-supplied `BytesMut`, while the caller forwards the file contents
//! itself. `stream` holds the decision logic of the streaming writer.

pub mod archive;
pub mod foreign;
pub mod format;
pub mod layout;
pub mod stream;

pub use archive::{
    CompressionMethod, FileTimes, InvalidMsDosDateTime, InvalidZipPath, MsDosDateTime, ZipArchive,
    ZipPath,
};
pub use stream::{WriterAction, WriterEvent, WriterState, ZipEntry};
