//! Pluggable per-file decryption.
//!
//! Embedders supply a scheme by implementing `FileDecryptor`; a record's
//! metadata or its leading bytes decide whether the scheme applies.

use vstd::prelude::*;

use crate::file::CpkFile;

verus! {

/// A per-file decryption scheme.
pub trait FileDecryptor {
    /// Whether a file is scrambled, judged from its catalog record or its
    /// payload bytes.
    fn is_encrypted(file: &CpkFile, stream: &Vec<u8>) -> bool;

    /// Reverse the scrambling by overwriting the payload.
    fn decrypt_in_place(input: &mut Vec<u8>);
}

/// The do-nothing scheme: nothing is ever scrambled.
#[derive(Debug)]
pub struct DummyDecryptor;

impl FileDecryptor for DummyDecryptor {
    fn is_encrypted(file: &CpkFile, stream: &Vec<u8>) -> bool {
        false
    }

    fn decrypt_in_place(input: &mut Vec<u8>) {
    }
}

} // verus!
