//! Decoding of the structural headers of a PE32 image: the DOS header, the
//! NT head (signature, COFF file header, optional header with its directory
//! table) and the section headers, from a byte buffer, with every failure
//! reported as a value.
pub mod error;
pub mod bytes;
pub mod headers;
pub mod image;
pub mod name;
pub mod encoding;
