//! Reads the names a Windows dynamic-link library exports, straight from the
//! bytes of its executable image, and writes the text of a forwarding crate
//! for them.

pub mod bytes;
pub mod parsedllexports;
pub mod scaffold;
pub mod theorems;

pub use parsedllexports::{
    decode_names, export_name_bytes, parse_exports, rva_to_file_offset, DllParserError,
};
