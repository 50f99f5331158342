//! Language-aware text services for a terminal editor: grapheme-safe text
//! containers, file type detection, syntax highlighting with a bounded cache,
//! and rule-based auto-indentation.

mod chars;
pub mod document;
pub mod filetype;
pub mod highlight;
pub mod indent;
pub mod spans;
pub mod text;

pub use text::{PathBuffer, ReadableDocument, WriteableDocument};
pub use filetype::FileType;
