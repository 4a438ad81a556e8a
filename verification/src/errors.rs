//! The error taxonomy of the library.
use vstd::prelude::*;

verus! {

/// The outcome of one attempt to read a file, as reported to the catalog
/// by whoever performed the read.
pub enum ReadOutcome {
    /// The read succeeded with these bytes.
    Success(Vec<u8>),
    /// The file does not exist.
    Missing,
    /// The file exists but may not be read.
    Forbidden,
    /// The read failed for another reason, described by the detail text.
    Failed(String),
}

/// A failure to supply a file's content.
#[derive(Debug, PartialEq, Eq)]
pub enum FileError {
    /// The file (or the package that should contain it) does not exist;
    /// carries the path that was looked up.
    NotFound(String),
    /// The file may not be read, or its identifier escapes the active root.
    AccessDenied,
    /// Another failure, with detail text.
    Other(String),
    /// The file's bytes were required as text but are not valid UTF-8.
    InvalidUtf8,
}

/// A failure of a comparison run.
#[derive(Debug, PartialEq, Eq)]
pub enum RunError {
    /// An include or exclude pattern is not a valid regular expression;
    /// carries the offending pattern.
    BadPattern(String),
    /// Compilation failed for one scheduled variant; carries the family
    /// name, the variant ordering fields (weight, stretch, style), and
    /// the diagnostic detail.
    VariantCompile { family: String, weight: u16, stretch: u16, style: u8, detail: String },
    /// Compilation of the final collection document failed.
    CollectionCompile { detail: String },
    /// Encoding a rendered image failed.
    ImageEncode { detail: String },
}

} // verus!
