//! Value type describing one file of a CPK archive.
//!
//! Strings from the TOC are copied on intern, so a record stays valid after
//! its reader is gone.  They are kept as the raw pool bytes; the archive
//! format stores them NUL-terminated in UTF-8 or Shift-JIS, and decoding for
//! display is left to the embedding application.

use vstd::prelude::*;

verus! {

/// One file of the archive catalog.
#[derive(Debug, Clone)]
pub struct CpkFile {
    /// Directory that contains the file; `DirName` in the TOC.
    pub directory: Vec<u8>,
    /// Name of the file inside the directory; `FileName` in the TOC.
    pub file_name: Vec<u8>,
    /// Offset of the file payload, relative to the content region;
    /// `FileOffset` in the TOC.
    pub file_offset: u64,
    /// Stored (possibly compressed) size of the payload; `FileSize` in the
    /// TOC.
    pub file_size: u32,
    /// Size of the payload once extracted; `ExtractSize` in the TOC.
    pub extract_size: u32,
    /// Publisher annotation, e.g. a request to scramble the file;
    /// `UserString` in the TOC.
    pub user_string: Vec<u8>,
}

impl CpkFile {
    pub fn directory(&self) -> (r: &Vec<u8>)
        ensures
            r@ == self.directory@,
    {
        &self.directory
    }

    pub fn file_name(&self) -> (r: &Vec<u8>)
        ensures
            r@ == self.file_name@,
    {
        &self.file_name
    }

    pub fn file_offset(&self) -> (r: u64)
        ensures
            r == self.file_offset,
    {
        self.file_offset
    }

    pub fn file_size(&self) -> (r: u32)
        ensures
            r == self.file_size,
    {
        self.file_size
    }

    pub fn extract_size(&self) -> (r: u32)
        ensures
            r == self.extract_size,
    {
        self.extract_size
    }

    pub fn user_string(&self) -> (r: &Vec<u8>)
        ensures
            r@ == self.user_string@,
    {
        &self.user_string
    }

    pub fn new(
        directory: Vec<u8>,
        file_name: Vec<u8>,
        file_offset: u64,
        file_size: u32,
        extract_size: u32,
        user_string: Vec<u8>,
    ) -> (r: CpkFile)
        ensures
            r.directory@ == directory@,
            r.file_name@ == file_name@,
            r.file_offset == file_offset,
            r.file_size == file_size,
            r.extract_size == extract_size,
            r.user_string@ == user_string@,
    {
        CpkFile { directory, file_name, file_offset, file_size, extract_size, user_string }
    }
}

} // verus!
