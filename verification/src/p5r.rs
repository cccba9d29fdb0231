//! Per-file in-place XOR scrambling used by Persona 5 Royal archives.
//!
//! Files whose TOC `UserString` equals `CRI_CFATTR:ENCRYPT` have bytes
//! `[0x20, 0x420)` XORed with bytes `[0x420, 0x820)`.  Files of 0x820 bytes
//! or fewer are stored in the clear even when marked.  The key window is
//! untouched, so the transform is its own inverse.

use vstd::prelude::*;

use crate::file::CpkFile;

verus! {

/// The `CRI_CFATTR:ENCRYPT` sentinel as raw bytes.
pub open spec fn spec_encrypt_sentinel() -> Seq<u8> {
    seq![
        0x43u8, 0x52u8, 0x49u8, 0x5fu8, 0x43u8, 0x46u8, 0x41u8, 0x54u8, 0x54u8, 0x52u8, 0x3au8,
        0x45u8, 0x4eu8, 0x43u8, 0x52u8, 0x59u8, 0x50u8, 0x54u8,
    ]
}

/// The scrambling transform: identity on short buffers, otherwise the XOR of
/// the data window with the key window.
pub open spec fn spec_p5r_decrypt(s: Seq<u8>) -> Seq<u8> {
    if s.len() <= 0x820 {
        s
    } else {
        Seq::new(
            s.len(),
            |j: int| if 0x20 <= j < 0x420 { s[j] ^ s[j + 0x400] } else { s[j] },
        )
    }
}

proof fn lemma_xor_cancel(a: u8, b: u8)
    by (bit_vector)
    ensures
        (a ^ b) ^ b == a,
{
}

/// Reverses the Persona 5 Royal per-file scrambling.
#[derive(Debug)]
pub struct P5RDecryptor;

impl P5RDecryptor {
    /// Whether a catalog record is marked for this scheme.
    pub fn is_encrypted(file: &CpkFile) -> (r: bool)
        ensures
            r == (file.user_string@ == spec_encrypt_sentinel()),
    {
        let s = &file.user_string;
        if s.len() != 18 {
            proof {
                assert(spec_encrypt_sentinel().len() == 18);
            }
            return false;
        }
        let r = s[0] == 0x43 && s[1] == 0x52 && s[2] == 0x49 && s[3] == 0x5f && s[4] == 0x43
            && s[5] == 0x46 && s[6] == 0x41 && s[7] == 0x54 && s[8] == 0x54 && s[9] == 0x52
            && s[10] == 0x3a && s[11] == 0x45 && s[12] == 0x4e && s[13] == 0x43 && s[14] == 0x52
            && s[15] == 0x59 && s[16] == 0x50 && s[17] == 0x54;
        proof {
            if r {
                assert(s@ =~= spec_encrypt_sentinel());
            }
        }
        r
    }

    /// XOR bytes `[0x20, 0x420)` with bytes `[0x420, 0x820)` in place.
    /// Buffers of 0x820 bytes or fewer pass through unchanged: they were
    /// never scrambled, even when marked.
    pub fn decrypt_in_place(input: &mut Vec<u8>)
        ensures
            final(input)@ == spec_p5r_decrypt(old(input)@),
            old(input)@.len() <= 0x820 ==> final(input)@ == old(input)@,
    {
        let ghost orig: Seq<u8> = input@;
        if input.len() <= 0x820 {
            return ;
        }
        let mut i: usize = 0;
        while i < 0x400
            invariant
                i <= 0x400,
                input@.len() == orig.len(),
                orig.len() > 0x820,
                forall|j: int|
                    0x20 <= j < 0x20 + i ==> input@[j] == (orig[j] ^ orig[j + 0x400]),
                forall|j: int|
                    0 <= j < orig.len() && !(0x20 <= j < 0x20 + i) ==> input@[j] == orig[j],
            decreases 0x400 - i,
        {
            let v = input[0x20 + i];
            let k = input[0x420 + i];
            input[0x20 + i] = v ^ k;
            i = i + 1;
        }
        assert(input@ =~= spec_p5r_decrypt(orig));
    }
}

/// The per-file scrambling is an involution: applying it twice restores
/// every byte sequence.
pub proof fn lemma_p5r_decrypt_involution(s: Seq<u8>)
    ensures
        spec_p5r_decrypt(spec_p5r_decrypt(s)) == s,
{
    let d = spec_p5r_decrypt(s);
    if s.len() <= 0x820 {
        assert(spec_p5r_decrypt(d) == s);
    } else {
        let dd = spec_p5r_decrypt(d);
        assert forall|j: int| 0 <= j < s.len() implies dd[j] == s[j] by {
            if 0x20 <= j < 0x420 {
                assert(d[j + 0x400] == s[j + 0x400]);
                lemma_xor_cancel(s[j], s[j + 0x400]);
            }
        }
        assert(dd =~= s);
    }
}

} // verus!
