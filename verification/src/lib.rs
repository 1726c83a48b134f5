//! Conversions between authored text, a structured rich-text document tree,
//! and the RTF and EPUB output of a chapter-based writing tool.

pub mod archive;
pub mod assets;
pub mod builder;
pub mod chapters;
pub mod clock;
pub mod document;
pub mod epub;
pub mod importing;
pub mod markdown;
pub mod package;
pub mod plain;
pub mod project;
pub mod rtf;
pub mod text;
pub mod xhtml;
