//! Codec for Intel HEX records: one text line to a typed record and back.
pub mod checksum;
pub mod error;
pub mod hex_text;
pub mod ihex;
pub mod lemmas;
pub mod lines;
pub mod parser;
pub mod serializer;
pub mod types;

pub use crate::error::{EncodeError, IHexError, ParseError};
pub use crate::ihex::{IHex, IHexView};
pub use crate::parser::Parser;
