//! The fixed 0x20-byte `@UTF` table preamble.
//!
//! Big-endian fields: total length at +0x04, encoding tag at +0x09, rows
//! offset at +0x0a, string-pool offset at +0x0c, data-pool offset at +0x10,
//! column count at +0x18, row size at +0x1a, row count at +0x1c.  The three
//! region offsets and the length are biased by +0x08 on parse (they are
//! stored relative to the byte after the signature/length pair).

use vstd::prelude::*;

use crate::bytes::be_u16;
use crate::bytes::be_u32;
use crate::bytes::spec_be_u16;
use crate::bytes::spec_be_u32;
use crate::errors::CpkReaderError;

verus! {

/// How strings in the pool are encoded.
#[derive(Debug, Clone, Copy, PartialEq, Eq, Structural)]
pub enum StringEncoding {
    ShiftJIS,
    UTF8,
}

/// Parsed table preamble, offsets already biased by +0x08.
#[derive(Debug, Clone, Copy, PartialEq, Eq, Structural)]
pub struct TableHeader {
    /// End of the table, biased.
    pub length: u64,
    /// Encoding tag: 0 is Shift-JIS, anything else UTF-8.
    pub encoding_tag: u8,
    /// Start of the packed rows, biased.
    pub rows_offset: u64,
    /// Start of the NUL-terminated string pool, biased.
    pub string_pool_offset: u64,
    /// Start of the raw data pool, biased.
    pub data_pool_offset: u64,
    /// Number of columns.
    pub column_count: u16,
    /// Bytes per row as declared by the table.
    pub row_size: u16,
    /// Number of rows.
    pub row_count: u32,
}

/// The header parsed from the start of a table image: nothing when the
/// image is shorter than 0x20 bytes or the region offsets are not
/// monotonically ordered below the declared length.
pub open spec fn spec_table_header(s: Seq<u8>) -> Option<TableHeader> {
    if s.len() < 0x20 {
        None
    } else {
        let length = spec_be_u32(s, 0x4) + 8;
        let rows_offset = spec_be_u16(s, 0xa) + 8;
        let string_pool_offset = spec_be_u32(s, 0xc) + 8;
        let data_pool_offset = spec_be_u32(s, 0x10) + 8;
        if rows_offset <= string_pool_offset && string_pool_offset <= data_pool_offset
            && data_pool_offset <= length {
            Some(
                TableHeader {
                    length: length as u64,
                    encoding_tag: s[0x9],
                    rows_offset: rows_offset as u64,
                    string_pool_offset: string_pool_offset as u64,
                    data_pool_offset: data_pool_offset as u64,
                    column_count: spec_be_u16(s, 0x18) as u16,
                    row_size: spec_be_u16(s, 0x1a) as u16,
                    row_count: spec_be_u32(s, 0x1c) as u32,
                },
            )
        } else {
            None
        }
    }
}

impl TableHeader {
    /// Parse the preamble of a table image.  `MalformedHeader` when the
    /// image is too short for the preamble or the region offsets are out
    /// of order.
    pub fn new(file: &Vec<u8>) -> (r: Result<TableHeader, CpkReaderError>)
        ensures
            match r {
                Ok(h) => spec_table_header(file@) == Some(h),
                Err(e) => spec_table_header(file@) is None && e == CpkReaderError::MalformedHeader,
            },
    {
        if file.len() < 0x20 {
            return Err(CpkReaderError::MalformedHeader);
        }
        let length = (be_u32(file, 0x4) as u64) + 8;
        let rows_offset = (be_u16(file, 0xa) as u64) + 8;
        let string_pool_offset = (be_u32(file, 0xc) as u64) + 8;
        let data_pool_offset = (be_u32(file, 0x10) as u64) + 8;
        if !(rows_offset <= string_pool_offset && string_pool_offset <= data_pool_offset
            && data_pool_offset <= length) {
            return Err(CpkReaderError::MalformedHeader);
        }
        Ok(
            TableHeader {
                length,
                encoding_tag: file[0x9],
                rows_offset,
                string_pool_offset,
                data_pool_offset,
                column_count: be_u16(file, 0x18),
                row_size: be_u16(file, 0x1a),
                row_count: be_u32(file, 0x1c),
            },
        )
    }

    /// The string encoding declared by the tag byte.
    pub fn get_encoding(&self) -> (r: StringEncoding)
        ensures
            r == (if self.encoding_tag == 0 {
                StringEncoding::ShiftJIS
            } else {
                StringEncoding::UTF8
            }),
    {
        if self.encoding_tag == 0 {
            StringEncoding::ShiftJIS
        } else {
            StringEncoding::UTF8
        }
    }
}

} // verus!
