//! Error kinds surfaced by table parsing, catalog construction and
//! extraction.

use vstd::prelude::*;

verus! {

/// Everything that can go wrong while reading a CPK archive.
#[derive(Clone, Copy, Debug, PartialEq, Eq, Structural)]
pub enum CpkReaderError {
    /// A read needed more bytes than the archive holds.
    Truncated,
    /// The table preamble violates the monotonic-offsets invariant or its
    /// length bound.
    MalformedHeader,
    /// A column descriptor carries a type tag above the last known tag.
    UnknownColumnType,
    /// The header table has no row-stored `TocOffset` column.
    MissingTocOffset,
    /// The header table has no row-stored `ContentOffset` column.
    MissingContentOffset,
    /// A required TOC string cell is absent or unresolvable.
    NoFileName,
    /// The TOC `FileSize` column is absent.
    NoFileSize,
    /// The TOC `ExtractSize` column is absent.
    NoExtractSize,
    /// A required column holds a cell of the wrong variant.
    WrongRowValueType,
    /// `extract_file` was called before `get_files`.
    GetFilesNotCalled,
    /// The CRILAYLA write cursor would underflow, a copy would reach outside
    /// the output, or the bit reader would read past the stream start.
    DecoderCorruption,
}

impl CpkReaderError {
    /// Short description, for embedding applications to show.
    pub fn as_str(&self) -> &'static str {
        match self {
            CpkReaderError::Truncated => "unexpected end of archive data",
            CpkReaderError::MalformedHeader => "malformed table header",
            CpkReaderError::UnknownColumnType => "unknown column type tag",
            CpkReaderError::MissingTocOffset => "missing TocOffset column",
            CpkReaderError::MissingContentOffset => "missing ContentOffset column",
            CpkReaderError::NoFileName => "missing file name in TOC row",
            CpkReaderError::NoFileSize => "missing file size in TOC row",
            CpkReaderError::NoExtractSize => "missing extract size in TOC row",
            CpkReaderError::WrongRowValueType => "TOC cell holds the wrong value type",
            CpkReaderError::GetFilesNotCalled => "extract_file called before get_files",
            CpkReaderError::DecoderCorruption => "corrupt CRILAYLA stream",
        }
    }
}

} // verus!
