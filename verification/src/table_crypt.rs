//! Keystream XOR applied to whole `@UTF` tables.
//!
//! An encrypted table starts with the keystream image of the `@UTF`
//! signature.  Byte `i` of the keystream is `95 * 21^i` in wrapping 8-bit
//! arithmetic; XOR with the same stream both encrypts and decrypts.

use vstd::prelude::*;

use crate::errors::CpkReaderError;

verus! {

/// Keystream byte `k` for a cipher seeded with `seed`:
/// `seed * 21^k` in wrapping 8-bit arithmetic.
pub open spec fn spec_keystream(seed: u8, k: int) -> u8
    decreases k,
{
    if k <= 0 {
        seed
    } else {
        ((spec_keystream(seed, k - 1) * 21) % 256) as u8
    }
}

/// The whole table decrypted from `start` on with keystream seed `seed`
/// (bytes below `start` are untouched).
pub open spec fn spec_decrypt_from(s: Seq<u8>, start: int, seed: u8) -> Seq<u8> {
    Seq::new(s.len(), |j: int| if j < start { s[j] } else { s[j] ^ spec_keystream(seed, j - start) })
}

/// A table decrypted in full with the standard seed 95.
pub open spec fn spec_decrypt_table(s: Seq<u8>) -> Seq<u8> {
    spec_decrypt_from(s, 0, 95u8)
}

/// Whether the leading four bytes are the keystream image of the `@UTF`
/// signature (the little-endian view of that image is `0xF5F39E1F`).
pub open spec fn spec_table_is_encrypted(s: Seq<u8>) -> bool {
    s.len() >= 4 && s[0] == 0x1fu8 && s[1] == 0x9eu8 && s[2] == 0xf3u8 && s[3] == 0xf5u8
}

proof fn lemma_xor_cancel(a: u8, b: u8)
    by (bit_vector)
    ensures
        (a ^ b) ^ b == a,
{
}

/// Reverses the keystream XOR applied to whole tables.
#[derive(Debug)]
pub struct TableDecryptor;

impl TableDecryptor {
    /// Little-endian image of the encrypted `@UTF` signature.
    pub fn is_encrypted(bytes: &Vec<u8>) -> (r: bool)
        ensures
            r == spec_table_is_encrypted(bytes@),
    {
        match Self::is_encrypted_non_dangerous(bytes) {
            Ok(v) => v == 0xF5F39E1F,
            Err(_) => false,
        }
    }

    /// The first four bytes as a little-endian word, or `Truncated` when the
    /// table is shorter than the signature.
    pub fn is_encrypted_non_dangerous(bytes: &Vec<u8>) -> (r: Result<u32, CpkReaderError>)
        ensures
            match r {
                Ok(v) => bytes@.len() >= 4 && v == crate::bytes::spec_le_u32(bytes@, 0),
                Err(e) => bytes@.len() < 4 && e == CpkReaderError::Truncated,
            },
    {
        if bytes.len() < 4 {
            return Err(CpkReaderError::Truncated);
        }
        Ok(crate::bytes::le_u32(bytes, 0))
    }

    /// Decrypted copy of an encrypted table image.
    pub fn decrypt_utf(input: &Vec<u8>) -> (r: Vec<u8>)
        ensures
            r@ == spec_decrypt_table(input@),
    {
        let mut result = input.clone();
        Self::decrypt_utf_in_place(&mut result);
        result
    }

    /// In-place decryption of a whole table with the standard seed.
    pub fn decrypt_utf_in_place(input: &mut Vec<u8>)
        ensures
            final(input)@ == spec_decrypt_table(old(input)@),
    {
        Self::decrypt_in_place_u8(input, 0, 95);
        assert(input@ =~= spec_decrypt_table(old(input)@));
    }

    /// Scalar keystream XOR from `start` on.  The keystream multiplier acts
    /// on the byte's two's-complement image, so signed and unsigned wrapping
    /// multiplication produce the same bits.
    pub fn decrypt_in_place_u8(input: &mut Vec<u8>, start: usize, xor: i8)
        ensures
            final(input)@ == spec_decrypt_from(old(input)@, start as int, xor as u8),
    {
        let ghost orig: Seq<u8> = input@;
        if start >= input.len() {
            assert(input@ =~= spec_decrypt_from(orig, start as int, xor as u8));
            return ;
        }
        let mut key: u8 = xor as u8;
        let mut i: usize = start;
        while i < input.len()
            invariant
                start <= i <= orig.len(),
                input@.len() == orig.len(),
                key == spec_keystream(xor as u8, i - start),
                forall|j: int| 0 <= j < i ==> input@[j] == spec_decrypt_from(orig, start as int, xor as u8)[j],
                forall|j: int| i <= j < orig.len() ==> input@[j] == orig[j],
            decreases orig.len() - i,
        {
            let b = input[i];
            input[i] = b ^ key;
            key = (((key as u32) * 21) % 256) as u8;
            i = i + 1;
        }
        assert(input@ =~= spec_decrypt_from(orig, start as int, xor as u8));
    }
}

/// The encrypted-table marker is the keystream image of the `@UTF`
/// signature: a table that carries it opens with `@UTF` once decrypted.
pub proof fn lemma_encrypted_marker_is_keystream_image(s: Seq<u8>)
    requires
        spec_table_is_encrypted(s),
    ensures
        spec_decrypt_table(s)[0] == 0x40,
        spec_decrypt_table(s)[1] == 0x55,
        spec_decrypt_table(s)[2] == 0x54,
        spec_decrypt_table(s)[3] == 0x46,
{
    assert(spec_keystream(95u8, 0) == 0x5f);
    assert(spec_keystream(95u8, 1) == 0xcb);
    assert(spec_keystream(95u8, 2) == 0xa7);
    assert(spec_keystream(95u8, 3) == 0xb3);
    assert(0x1fu8 ^ 0x5fu8 == 0x40u8) by (bit_vector);
    assert(0x9eu8 ^ 0xcbu8 == 0x55u8) by (bit_vector);
    assert(0xf3u8 ^ 0xa7u8 == 0x54u8) by (bit_vector);
    assert(0xf5u8 ^ 0xb3u8 == 0x46u8) by (bit_vector);
}

/// Applying the table keystream twice restores every byte sequence.
pub proof fn lemma_table_decrypt_involution(s: Seq<u8>)
    ensures
        spec_decrypt_table(spec_decrypt_table(s)) == s,
{
    let d = spec_decrypt_table(s);
    let dd = spec_decrypt_table(d);
    assert forall|j: int| 0 <= j < s.len() implies dd[j] == s[j] by {
        lemma_xor_cancel(s[j], spec_keystream(95u8, j));
    }
    assert(dd =~= s);
}

} // verus!
