//! The 0x10-byte framing record around each table of a CPK archive.
//!
//! A frame carries a four-byte ASCII role tag, a zero word, the inner
//! table's length as a big-endian u32 at +0x08, and another zero word;
//! the table image follows.  An image that opens with the keystream view
//! of the `@UTF` signature is decrypted in place before it is handed on.

use vstd::prelude::*;

use crate::bytes::be_u32;
use crate::bytes::spec_be_u32;
use crate::errors::CpkReaderError;
use crate::table_crypt::spec_decrypt_table;
use crate::table_crypt::spec_table_is_encrypted;
use crate::table_crypt::TableDecryptor;

verus! {

/// The table image framed at `pos`: the `length` bytes after the frame,
/// decrypted when they carry the encrypted signature.
pub open spec fn spec_table_container(data: Seq<u8>, pos: int) -> Result<Seq<u8>, CpkReaderError> {
    if pos < 0 || pos + 0x10 > data.len() {
        Err(CpkReaderError::Truncated)
    } else {
        let size = spec_be_u32(data, pos + 0x8);
        if pos + 0x10 + size > data.len() {
            Err(CpkReaderError::Truncated)
        } else {
            let raw = data.subrange(pos + 0x10, pos + 0x10 + size);
            if spec_table_is_encrypted(raw) {
                Ok(spec_decrypt_table(raw))
            } else {
                Ok(raw)
            }
        }
    }
}

/// Reads one framed table out of an archive image.
#[derive(Debug)]
pub struct TableContainer;

impl TableContainer {
    /// The table image framed at `pos`, decrypted if need be.
    /// `Truncated` when the frame or the image it announces reaches past
    /// the archive.
    pub fn new(data: &Vec<u8>, pos: usize) -> (r: Result<Vec<u8>, CpkReaderError>)
        ensures
            match r {
                Ok(tbl) => spec_table_container(data@, pos as int) == Ok::<_, CpkReaderError>(
                    tbl@,
                ),
                Err(e) => spec_table_container(data@, pos as int) == Err::<Seq<u8>, _>(e),
            },
    {
        if pos > data.len() || 0x10 > data.len() - pos {
            return Err(CpkReaderError::Truncated);
        }
        let size = be_u32(data, pos + 0x8) as usize;
        if size > data.len() - (pos + 0x10) {
            return Err(CpkReaderError::Truncated);
        }
        let start = pos + 0x10;
        let end = start + size;
        let mut tbl: Vec<u8> = Vec::new();
        let mut i: usize = start;
        while i < end
            invariant
                start <= i <= end,
                end == start + size,
                end <= data@.len(),
                tbl@ == data@.subrange(start as int, i as int),
            decreases end - i,
        {
            let b = data[i];
            tbl.push(b);
            proof {
                assert(tbl@ =~= data@.subrange(start as int, i + 1));
            }
            i = i + 1;
        }
        if TableDecryptor::is_encrypted(&tbl) {
            TableDecryptor::decrypt_utf_in_place(&mut tbl);
        }
        Ok(tbl)
    }
}

} // verus!
