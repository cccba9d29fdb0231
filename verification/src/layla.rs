//! CRILAYLA decompression.
//!
//! A CRILAYLA stream is a 16-byte little-endian header, a compressed bit
//! stream, and a verbatim 0x100-byte tail that becomes the start of the
//! output.  The bit stream is consumed from its last byte toward its first,
//! and inside each byte from the high bit down; the decoder reconstructs the
//! output from its last byte toward byte 0x100.  A copy command carries a
//! 13-bit offset and an escalating 2/3/5/8/8/... length code where each
//! field continues only when the previous one read its maximum.
//!
//! The whole decoder is specified by `spec_decompress`, a recursive
//! interpreter of the bit stream; the executable decoder is proved to return
//! exactly its value, and `DecoderCorruption` exactly when it has none.

use vstd::arithmetic::power2::pow2;
use vstd::prelude::*;

use crate::bytes::le_u32;
use crate::bytes::le_u64;
use crate::bytes::spec_le_u32;
use crate::bytes::spec_le_u64;
use crate::errors::CpkReaderError;
use crate::free_list::FreeList;
use crate::free_list::FreeListNode;

verus! {

/// `CRILAYLA` as a little-endian u64.
pub open spec fn spec_layla_magic() -> int {
    0x414C59414C495243
}

// ---------------------------------------------------------------------------
// The bit stream.
// ---------------------------------------------------------------------------
// A cursor state is a bit position `bp`: the number of stream bits that are
// still unread, counting from the start of the byte buffer.  Reading moves
// `bp` down; the bit delivered at position `bp` is bit `(bp-1) % 8` of byte
// `(bp-1) / 8`, so the stream walks the buffer from its end toward byte 0
// and each byte from its high bit to its low bit.

/// The single bit delivered when the cursor stands at bit position `bp`.
pub open spec fn spec_stream_bit(data: Seq<u8>, bp: int) -> u8 {
    (data[(bp - 1) / 8] >> (((bp - 1) % 8) as u8)) & 1
}

/// The value of `n` bits read MSB-first from bit position `bp` downward.
pub open spec fn spec_stream_bits(data: Seq<u8>, bp: int, n: int) -> int
    decreases n,
{
    if n <= 0 {
        0
    } else {
        spec_stream_bits(data, bp, n - 1) * 2 + spec_stream_bit(data, bp - (n - 1))
    }
}

proof fn lemma_bit_is_01(b: u8, s: u8)
    by (bit_vector)
    ensures
        ((b >> s) & 1) < 2,
{
}

pub proof fn lemma_stream_bits_bound(data: Seq<u8>, bp: int, n: int)
    requires
        n >= 0,
    ensures
        0 <= spec_stream_bits(data, bp, n) < pow2(n as nat),
    decreases n,
{
    vstd::arithmetic::power2::lemma_pow2_pos(n as nat);
    if n == 0 {
        vstd::arithmetic::power2::lemma2_to64();
    } else {
        lemma_stream_bits_bound(data, bp, n - 1);
        lemma_bit_is_01(data[(bp - (n - 1) - 1) / 8], ((bp - (n - 1) - 1) % 8) as u8);
        assert(pow2(n as nat) == 2 * pow2((n - 1) as nat)) by {
            vstd::arithmetic::power2::lemma_pow2_unfold(n as nat);
        }
    }
}

proof fn lemma_bit_addr(p: int, b: int)
    requires
        0 <= b < 8,
    ensures
        (8 * p + b) / 8 == p,
        (8 * p + b) % 8 == b,
{
    vstd::arithmetic::div_mod::lemma_fundamental_div_mod_converse(8 * p + b, 8, p, b);
}

/// Bit-stream cursor: `cdata` is the index of the byte under the cursor and
/// `bits_left` how many of its low bits are still unread.
#[derive(Debug, Clone, Copy)]
pub struct LaylaDecompressorCursor {
    pub cdata: usize,
    pub bits_left: usize,
}

impl LaylaDecompressorCursor {
    /// Number of unread stream bits.
    pub open spec fn bitpos(self) -> int {
        8 * self.cdata + self.bits_left
    }

    /// The cursor addresses a byte of `data` (or stands one past its end
    /// with no partial byte).
    pub open spec fn wf(self, data: Seq<u8>) -> bool {
        self.bits_left <= 7 && self.bitpos() <= 8 * data.len()
    }

    pub fn new(cdata: usize, bits_left: usize) -> (r: Self)
        ensures
            r.cdata == cdata,
            r.bits_left == bits_left,
    {
        LaylaDecompressorCursor { cdata, bits_left }
    }

    pub fn get_cdata(&self) -> (r: usize)
        ensures
            r == self.cdata,
    {
        self.cdata
    }

    pub fn get_bits_left(&self) -> (r: usize)
        ensures
            r == self.bits_left,
    {
        self.bits_left
    }

    /// Whether at least `n` stream bits remain.
    fn has_bits(&self, n: usize) -> (r: bool)
        requires
            n <= 16,
            self.bits_left <= 7,
        ensures
            r == (self.bitpos() >= n),
    {
        if self.cdata >= 2 {
            true
        } else {
            self.cdata * 8 + self.bits_left >= n
        }
    }

    /// One stream bit.
    fn read_bit(&mut self, data: &Vec<u8>) -> (r: u8)
        requires
            old(self).wf(data@),
            old(self).bitpos() >= 1,
        ensures
            final(self).wf(data@),
            final(self).bitpos() == old(self).bitpos() - 1,
            r == spec_stream_bit(data@, old(self).bitpos()),
            r < 2,
    {
        let ghost bp = old(self).bitpos();
        if self.bits_left != 0 {
            self.bits_left = self.bits_left - 1;
        } else {
            self.cdata = self.cdata - 1;
            self.bits_left = 7;
        }
        proof {
            lemma_bit_addr(self.cdata as int, self.bits_left as int);
            assert((bp - 1) / 8 == self.cdata && (bp - 1) % 8 == self.bits_left);
            lemma_bit_is_01(data@[self.cdata as int], self.bits_left as u8);
        }
        (data[self.cdata] >> (self.bits_left as u8)) & 1
    }

    /// `n` bits MSB-first, `n <= 13`.
    fn read_bits(&mut self, data: &Vec<u8>, n: usize) -> (r: u32)
        requires
            old(self).wf(data@),
            n <= 13,
            old(self).bitpos() >= n,
        ensures
            final(self).wf(data@),
            final(self).bitpos() == old(self).bitpos() - n,
            r == spec_stream_bits(data@, old(self).bitpos(), n as int),
            r < 0x2000,
    {
        let ghost bp0 = old(self).bitpos();
        let mut res: u32 = 0;
        let mut i: usize = 0;
        proof {
            vstd::arithmetic::power2::lemma2_to64();
        }
        while i < n
            invariant
                self.wf(data@),
                i <= n,
                n <= 13,
                self.bitpos() == bp0 - i,
                bp0 >= n,
                res == spec_stream_bits(data@, bp0, i as int),
                res < pow2(i as nat),
            decreases n - i,
        {
            proof {
                lemma_stream_bits_bound(data@, bp0, i as int);
                assert(pow2(i as nat) <= pow2(13)) by {
                    if i < 13 {
                        vstd::arithmetic::power2::lemma_pow2_strictly_increases(
                            i as nat,
                            13,
                        );
                    }
                }
                vstd::arithmetic::power2::lemma2_to64();
            }
            let b = self.read_bit(data);
            res = res * 2 + (b as u32);
            i = i + 1;
            proof {
                assert(spec_stream_bits(data@, bp0, i as int) == spec_stream_bits(
                    data@,
                    bp0,
                    i - 1,
                ) * 2 + spec_stream_bit(data@, bp0 - (i - 1)));
                assert(pow2(i as nat) == 2 * pow2((i - 1) as nat)) by {
                    vstd::arithmetic::power2::lemma_pow2_unfold(i as nat);
                }
            }
        }
        proof {
            lemma_stream_bits_bound(data@, bp0, n as int);
            assert(pow2(n as nat) <= pow2(13)) by {
                if n < 13 {
                    vstd::arithmetic::power2::lemma_pow2_strictly_increases(n as nat, 13);
                }
            }
            vstd::arithmetic::power2::lemma2_to64();
        }
        res
    }

    /// One-bit flag.
    pub fn read_1(&mut self, data: &Vec<u8>) -> (r: bool)
        requires
            old(self).wf(data@),
            old(self).bitpos() >= 1,
        ensures
            final(self).wf(data@),
            final(self).bitpos() == old(self).bitpos() - 1,
            r == (spec_stream_bits(data@, old(self).bitpos(), 1) == 1),
    {
        let v = self.read_bits(data, 1);
        v == 1
    }

    /// First tier of the copy-length code.
    pub fn read_2(&mut self, data: &Vec<u8>) -> (r: u8)
        requires
            old(self).wf(data@),
            old(self).bitpos() >= 2,
        ensures
            final(self).wf(data@),
            final(self).bitpos() == old(self).bitpos() - 2,
            r == spec_stream_bits(data@, old(self).bitpos(), 2),
            r < 4,
    {
        let v = self.read_bits(data, 2);
        proof {
            lemma_stream_bits_bound(data@, old(self).bitpos(), 2);
            vstd::arithmetic::power2::lemma2_to64();
        }
        v as u8
    }

    /// A literal byte or one continuation chunk.
    pub fn read_8(&mut self, data: &Vec<u8>) -> (r: u8)
        requires
            old(self).wf(data@),
            old(self).bitpos() >= 8,
        ensures
            final(self).wf(data@),
            final(self).bitpos() == old(self).bitpos() - 8,
            r == spec_stream_bits(data@, old(self).bitpos(), 8),
    {
        let v = self.read_bits(data, 8);
        proof {
            lemma_stream_bits_bound(data@, old(self).bitpos(), 8);
            vstd::arithmetic::power2::lemma2_to64();
        }
        v as u8
    }

    /// Raw copy-offset field.
    pub fn read_13(&mut self, data: &Vec<u8>) -> (r: u32)
        requires
            old(self).wf(data@),
            old(self).bitpos() >= 13,
        ensures
            final(self).wf(data@),
            final(self).bitpos() == old(self).bitpos() - 13,
            r == spec_stream_bits(data@, old(self).bitpos(), 13),
            r < 0x2000,
    {
        self.read_bits(data, 13)
    }

    /// Middle tiers of the copy-length code, `bits <= 8`.
    pub fn read_max_8(&mut self, data: &Vec<u8>, bits: usize) -> (r: u8)
        requires
            old(self).wf(data@),
            bits <= 8,
            old(self).bitpos() >= bits,
        ensures
            final(self).wf(data@),
            final(self).bitpos() == old(self).bitpos() - bits,
            r == spec_stream_bits(data@, old(self).bitpos(), bits as int),
    {
        let v = self.read_bits(data, bits);
        proof {
            lemma_stream_bits_bound(data@, old(self).bitpos(), bits as int);
            assert(pow2(bits as nat) <= pow2(8)) by {
                if bits < 8 {
                    vstd::arithmetic::power2::lemma_pow2_strictly_increases(bits as nat, 8);
                }
            }
            vstd::arithmetic::power2::lemma2_to64();
        }
        v as u8
    }
}

// ---------------------------------------------------------------------------
// The decoded stream.
// ---------------------------------------------------------------------------

/// The first `k` bytes of one backward copy: byte `k` is written at
/// `w - k` from the byte `offset` positions above it, reading bytes already
/// produced by the same copy when the offset is short.
pub open spec fn spec_copy_back(out: Seq<u8>, w: int, offset: int, k: int) -> Seq<u8>
    decreases k,
{
    if k <= 0 {
        out
    } else {
        let prev = spec_copy_back(out, w, offset, k - 1);
        prev.update(w - (k - 1), prev[w - (k - 1) + offset])
    }
}

/// The continuation chunks of a copy length: 8-bit fields summed until one
/// reads below 255.  Yields the bit position after the last field and the
/// sum, or nothing when the stream runs out.
pub open spec fn spec_chain(data: Seq<u8>, bp: int) -> Option<(int, int)>
    decreases bp,
{
    if bp < 8 {
        None
    } else {
        let v = spec_stream_bits(data, bp, 8);
        if v < 255 {
            Some((bp - 8, v))
        } else {
            match spec_chain(data, bp - 8) {
                None => None,
                Some((bp2, s)) => Some((bp2, 255 + s)),
            }
        }
    }
}

/// A whole copy length: 3 plus the escalating 2/3/5/8... fields, each read
/// only while the previous one is at its maximum.  Yields the bit position
/// after the length and the length itself.
pub open spec fn spec_copy_len(data: Seq<u8>, bp: int) -> Option<(int, int)> {
    if bp < 2 {
        None
    } else {
        let t1 = spec_stream_bits(data, bp, 2);
        if t1 < 3 {
            Some((bp - 2, 3 + t1))
        } else if bp - 2 < 3 {
            None
        } else {
            let t2 = spec_stream_bits(data, bp - 2, 3);
            if t2 < 7 {
                Some((bp - 5, 6 + t2))
            } else if bp - 5 < 5 {
                None
            } else {
                let t3 = spec_stream_bits(data, bp - 5, 5);
                if t3 < 31 {
                    Some((bp - 10, 13 + t3))
                } else {
                    match spec_chain(data, bp - 10) {
                        None => None,
                        Some((bp2, s)) => Some((bp2, 44 + s)),
                    }
                }
            }
        }
    }
}

/// One step per command: the decoded output, given the remaining bit
/// stream `bp`, the output produced so far and the write cursor `w`.
/// Decoding ends when the cursor passes below the verbatim prefix; it has
/// no value when the bit stream runs out mid-command, a copy would cross
/// below the prefix, or a copy would read outside the output.
pub open spec fn spec_decode_loop(data: Seq<u8>, bp: int, out: Seq<u8>, w: int) -> Option<Seq<u8>>
    decreases w,
{
    if w < 0x100 {
        Some(out)
    } else if bp < 1 {
        None
    } else if spec_stream_bit(data, bp) == 0 {
        if bp - 1 < 8 {
            None
        } else {
            spec_decode_loop(
                data,
                bp - 9,
                out.update(w, spec_stream_bits(data, bp - 1, 8) as u8),
                w - 1,
            )
        }
    } else {
        if bp - 1 < 13 {
            None
        } else {
            let offset = spec_stream_bits(data, bp - 1, 13) + 3;
            match spec_copy_len(data, bp - 14) {
                None => None,
                Some((bp2, len)) => {
                    if len < 3 || w - len + 1 < 0x100 || w + offset >= out.len() {
                        None
                    } else {
                        spec_decode_loop(data, bp2, spec_copy_back(out, w, offset, len), w - len)
                    }
                },
            }
        }
    }
}

/// The decompressed image of a compressed region `cmp` (the bytes after
/// the 16-byte header) with uncompressed size `u` and tail offset `h`:
/// the 0x100-byte tail at `h` becomes the prefix and the bit stream below
/// `h` fills the remaining `u` bytes back to front.
pub open spec fn spec_layla_output(cmp: Seq<u8>, u: int, h: int) -> Option<Seq<u8>> {
    if h < 0 || u < 0 || h + 0x100 > cmp.len() {
        None
    } else {
        spec_decode_loop(
            cmp,
            8 * h,
            cmp.subrange(h, h + 0x100) + Seq::new(u as nat, |j: int| 0u8),
            0x100 + u - 1,
        )
    }
}

/// The decompressed image of a whole CRILAYLA stream, header included.
pub open spec fn spec_decompress(input: Seq<u8>) -> Option<Seq<u8>> {
    if input.len() < 16 {
        None
    } else {
        spec_layla_output(
            input.subrange(16, input.len() as int),
            spec_le_u32(input, 8),
            spec_le_u32(input, 12),
        )
    }
}

proof fn lemma_chain_nonneg(data: Seq<u8>, bp: int)
    ensures
        match spec_chain(data, bp) {
            None => true,
            Some((bp2, s)) => s >= 0 && bp2 <= bp - 8,
        },
    decreases bp,
{
    if bp >= 8 {
        lemma_stream_bits_bound(data, bp, 8);
        lemma_chain_nonneg(data, bp - 8);
    }
}

proof fn lemma_copy_back_len(out: Seq<u8>, w: int, offset: int, k: int)
    requires
        k > 0 ==> 0 <= w - k + 1 && w < out.len(),
    ensures
        spec_copy_back(out, w, offset, k).len() == out.len(),
    decreases k,
{
    if k > 0 {
        lemma_copy_back_len(out, w, offset, k - 1);
    }
}

proof fn lemma_copy_back_low(out: Seq<u8>, w: int, offset: int, k: int)
    requires
        w - k + 1 >= 0x100,
        k > 0 ==> w < out.len(),
    ensures
        forall|j: int|
            0 <= j < 0x100 && j < out.len() ==> spec_copy_back(out, w, offset, k)[j] == out[j],
    decreases k,
{
    if k > 0 {
        lemma_copy_back_low(out, w, offset, k - 1);
        lemma_copy_back_len(out, w, offset, k - 1);
    }
}

/// Decoding writes only at or above the cursor and never below the
/// verbatim prefix: the output keeps its length and its first 0x100 bytes.
proof fn lemma_decode_loop_prefix(data: Seq<u8>, bp: int, out: Seq<u8>, w: int)
    requires
        w < out.len(),
    ensures
        match spec_decode_loop(data, bp, out, w) {
            None => true,
            Some(res) => res.len() == out.len() && forall|j: int|
                0 <= j < 0x100 && j < out.len() ==> res[j] == out[j],
        },
    decreases w,
{
    if w < 0x100 {
    } else if bp < 1 {
    } else if spec_stream_bit(data, bp) == 0 {
        if bp - 1 >= 8 {
            let out2 = out.update(w, spec_stream_bits(data, bp - 1, 8) as u8);
            lemma_decode_loop_prefix(data, bp - 9, out2, w - 1);
        }
    } else {
        if bp - 1 >= 13 {
            let offset = spec_stream_bits(data, bp - 1, 13) + 3;
            match spec_copy_len(data, bp - 14) {
                None => {},
                Some((bp2, len)) => {
                    if !(len < 3 || w - len + 1 < 0x100 || w + offset >= out.len()) {
                        let out2 = spec_copy_back(out, w, offset, len);
                        lemma_copy_back_len(out, w, offset, len);
                        lemma_copy_back_low(out, w, offset, len);
                        lemma_decode_loop_prefix(data, bp2, out2, w - len);
                    }
                },
            }
        }
    }
}

/// Shape of every successful decompression: the output holds exactly
/// `uncompressed_size + 0x100` bytes and its first 0x100 bytes are the
/// verbatim tail of the input.
pub proof fn lemma_decompress_shape(input: Seq<u8>)
    ensures
        match spec_decompress(input) {
            None => true,
            Some(out) => {
                &&& out.len() == 0x100 + spec_le_u32(input, 8)
                &&& out.subrange(0, 0x100) == input.subrange(
                    16 + spec_le_u32(input, 12),
                    16 + spec_le_u32(input, 12) + 0x100,
                )
            },
        },
{
    if spec_decompress(input) is Some {
        let u = spec_le_u32(input, 8);
        let h = spec_le_u32(input, 12);
        let cmp = input.subrange(16, input.len() as int);
        let init = cmp.subrange(h, h + 0x100) + Seq::new(u as nat, |j: int| 0u8);
        lemma_decode_loop_prefix(cmp, 8 * h, init, 0x100 + u - 1);
        let out = spec_decompress(input)->Some_0;
        assert(out.subrange(0, 0x100) =~= input.subrange(16 + h, 16 + h + 0x100));
    }
}

// ---------------------------------------------------------------------------
// The executable decoder.
// ---------------------------------------------------------------------------

/// The fixed 16-byte little-endian preamble of a CRILAYLA stream.
#[derive(Debug, Clone, Copy, PartialEq, Eq, Structural)]
pub struct LaylaHeader {
    /// `CRILAYLA`, little-endian.
    pub magic: u64,
    /// Size of the compressed payload once decoded, prefix excluded.
    pub uncompressed_size: u32,
    /// Offset from the end of this header to the verbatim 0x100-byte tail.
    pub uncompressed_header_offset: u32,
}

impl LaylaHeader {
    /// Read the preamble from the start of a stream.
    pub fn from_stream(file: &Vec<u8>) -> (r: Result<LaylaHeader, CpkReaderError>)
        ensures
            match r {
                Ok(hd) => {
                    &&& file@.len() >= 16
                    &&& hd.magic == spec_le_u64(file@, 0)
                    &&& hd.uncompressed_size == spec_le_u32(file@, 8)
                    &&& hd.uncompressed_header_offset == spec_le_u32(file@, 12)
                },
                Err(e) => file@.len() < 16 && e == CpkReaderError::Truncated,
            },
    {
        if file.len() < 16 {
            return Err(CpkReaderError::Truncated);
        }
        Ok(
            LaylaHeader {
                magic: le_u64(file, 0),
                uncompressed_size: le_u32(file, 8),
                uncompressed_header_offset: le_u32(file, 12),
            },
        )
    }
}

/// In-memory state of one decompression: the parsed header, the compressed
/// region (the input bytes after the header), and the output buffer.
#[derive(Debug)]
pub struct LaylaDecompressorImpl {
    pub header: LaylaHeader,
    pub input: Vec<u8>,
    pub output: Vec<u8>,
}

impl LaylaDecompressorImpl {
    pub fn new(header: LaylaHeader, input: Vec<u8>, output: Vec<u8>) -> (r: Self)
        ensures
            r.header == header,
            r.input@ == input@,
            r.output@ == output@,
    {
        LaylaDecompressorImpl { header, input, output }
    }

    /// Hand the finished output buffer back.
    pub fn into_output(self) -> (r: Vec<u8>)
        ensures
            r@ == self.output@,
    {
        self.output
    }

    /// Read one copy length at the cursor, mirroring `spec_copy_len`.
    /// An error means the stream ran out mid-code, or the length already
    /// exceeds any output a 32-bit size field can describe.
    #[verifier::spinoff_prover]
    #[verifier::loop_isolation(false)]
    fn read_copy_len(cursor: &mut LaylaDecompressorCursor, data: &Vec<u8>) -> (r: Result<
        u64,
        CpkReaderError,
    >)
        requires
            old(cursor).wf(data@),
        ensures
            final(cursor).wf(data@),
            match r {
                Ok(len) => {
                    &&& spec_copy_len(data@, old(cursor).bitpos()) == Some(
                        (final(cursor).bitpos(), len as int),
                    )
                    &&& 3 <= len <= 0x100000100u64
                },
                Err(e) => {
                    &&& e == CpkReaderError::DecoderCorruption
                    &&& match spec_copy_len(data@, old(cursor).bitpos()) {
                        None => true,
                        Some((b2, l)) => l > 0x100000000,
                    }
                },
            },
    {
        let ghost bpl = old(cursor).bitpos();
        if !cursor.has_bits(2) {
            return Err(CpkReaderError::DecoderCorruption);
        }
        let t1 = cursor.read_2(data);
        let mut length: u64 = 3 + t1 as u64;
        if t1 < 3 {
            proof {
                assert(spec_copy_len(data@, bpl) == Some((cursor.bitpos(), length as int)));
            }
            return Ok(length);
        }
        if !cursor.has_bits(3) {
            return Err(CpkReaderError::DecoderCorruption);
        }
        let t2 = cursor.read_max_8(data, 3);
        length = length + t2 as u64;
        proof {
            lemma_stream_bits_bound(data@, bpl - 2, 3);
            vstd::arithmetic::power2::lemma2_to64();
        }
        if t2 < 7 {
            proof {
                assert(spec_copy_len(data@, bpl) == Some((cursor.bitpos(), length as int)));
            }
            return Ok(length);
        }
        if !cursor.has_bits(5) {
            return Err(CpkReaderError::DecoderCorruption);
        }
        let t3 = cursor.read_max_8(data, 5);
        length = length + t3 as u64;
        proof {
            lemma_stream_bits_bound(data@, bpl - 5, 5);
            vstd::arithmetic::power2::lemma2_to64();
        }
        if t3 < 0x1f {
            proof {
                assert(spec_copy_len(data@, bpl) == Some((cursor.bitpos(), length as int)));
            }
            return Ok(length);
        }
        // Continuation chunks of 8 bits each, summed until one reads below
        // the maximum.
        loop
            invariant
                cursor.wf(data@),
                44 <= length <= 0x100000000u64 + 255,
                spec_copy_len(data@, bpl) == (match spec_chain(data@, cursor.bitpos()) {
                    None => None::<(int, int)>,
                    Some((b2, s)) => Some((b2, length as int + s)),
                }),
            decreases cursor.bitpos(),
        {
            if length > 0x100000000 {
                proof {
                    lemma_chain_nonneg(data@, cursor.bitpos());
                }
                return Err(CpkReaderError::DecoderCorruption);
            }
            if !cursor.has_bits(8) {
                return Err(CpkReaderError::DecoderCorruption);
            }
            let ghost bpc = cursor.bitpos();
            let t = cursor.read_8(data);
            length = length + t as u64;
            proof {
                lemma_stream_bits_bound(data@, bpc, 8);
                vstd::arithmetic::power2::lemma2_to64();
            }
            if t != 255 {
                return Ok(length);
            }
        }
    }

    /// One backward copy of `lu` bytes, the first written at `w`, each
    /// read `offset` positions above its target.
    #[verifier::loop_isolation(false)]
    fn apply_copy(&mut self, w: usize, offset: usize, lu: usize)
        requires
            3 <= lu,
            0xff + lu <= w < old(self).output@.len(),
            w + offset < old(self).output@.len(),
        ensures
            final(self).header == old(self).header,
            final(self).input == old(self).input,
            final(self).output@ == spec_copy_back(
                old(self).output@,
                w as int,
                offset as int,
                lu as int,
            ),
            final(self).output@.len() == old(self).output@.len(),
    {
        let ghost out0 = self.output@;
        let olen = self.output.len();
        let mut k: usize = 0;
        while k < lu
            invariant
                k <= lu,
                self.header == old(self).header,
                self.input == old(self).input,
                self.output@ == spec_copy_back(out0, w as int, offset as int, k as int),
                self.output@.len() == out0.len(),
                olen == out0.len(),
            decreases lu - k,
        {
            proof {
                lemma_copy_back_len(out0, w as int, offset as int, k as int);
            }
            let src = self.output[w - k + offset];
            self.output[w - k] = src;
            k = k + 1;
            proof {
                assert(self.output@ == spec_copy_back(out0, w as int, offset as int, k as int));
            }
        }
    }

    /// Decode the stream into the output buffer, which must be zeroed and
    /// sized to `uncompressed_size + 0x100`.  On success the buffer holds
    /// exactly the decoded image; a stream with no decoded image reports
    /// `DecoderCorruption`.
    #[verifier::spinoff_prover]
    #[verifier::loop_isolation(false)]
    #[verifier::rlimit(100)]
    pub fn decompress(&mut self) -> (r: Result<(), CpkReaderError>)
        requires
            old(self).header.uncompressed_header_offset + 0x100 <= old(self).input@.len(),
            old(self).output@.len() == 0x100 + old(self).header.uncompressed_size,
            forall|j: int| 0 <= j < old(self).output@.len() ==> old(self).output@[j] == 0u8,
        ensures
            final(self).header == old(self).header,
            final(self).input@ == old(self).input@,
            final(self).output@.len() == old(self).output@.len(),
            match r {
                Ok(()) => spec_layla_output(
                    old(self).input@,
                    old(self).header.uncompressed_size as int,
                    old(self).header.uncompressed_header_offset as int,
                ) == Some(final(self).output@),
                Err(e) => {
                    &&& e == CpkReaderError::DecoderCorruption
                    &&& spec_layla_output(
                        old(self).input@,
                        old(self).header.uncompressed_size as int,
                        old(self).header.uncompressed_header_offset as int,
                    ) is None
                },
            },
    {
        let h = self.header.uncompressed_header_offset as usize;
        let u = self.header.uncompressed_size as usize;
        let ghost cmp: Seq<u8> = self.input@;
        let ilen = self.input.len();
        let olen = self.output.len();
        // Copy the verbatim tail to the front of the output.
        let mut i: usize = 0;
        while i < 0x100
            invariant
                i <= 0x100,
                self.header == old(self).header,
                self.input@ == cmp,
                ilen == cmp.len(),
                olen == self.output@.len(),
                self.output@.len() == old(self).output@.len(),
                forall|j: int| 0 <= j < i ==> self.output@[j] == cmp[h + j],
                forall|j: int| i <= j < self.output@.len() ==> self.output@[j] == 0u8,
            decreases 0x100 - i,
        {
            let b = self.input[h + i];
            self.output[i] = b;
            i = i + 1;
        }
        let ghost init = cmp.subrange(h as int, h + 0x100) + Seq::new(u as nat, |j: int| 0u8);
        proof {
            assert(self.output@ =~= init);
        }
        let ghost goal = spec_layla_output(cmp, u as int, h as int);
        let mut cursor = LaylaDecompressorCursor::new(h, 0);
        let mut w: usize = self.output.len() - 1;
        proof {
            assert(goal == spec_decode_loop(cmp, cursor.bitpos(), self.output@, w as int));
        }
        while w >= 0x100
            invariant
                self.header == old(self).header,
                self.input@ == cmp,
                cursor.wf(cmp),
                self.output@.len() == old(self).output@.len(),
                0xff <= w < 0x100 + u,
                goal == spec_decode_loop(cmp, cursor.bitpos(), self.output@, w as int),
            decreases w,
        {
            let ghost bp = cursor.bitpos();
            let ghost out_at_entry = self.output@;
            if !cursor.has_bits(1) {
                return Err(CpkReaderError::DecoderCorruption);
            }
            let flag = cursor.read_1(&self.input);
            proof {
                assert(spec_stream_bits(cmp, bp, 1) == spec_stream_bits(cmp, bp, 0) * 2
                    + spec_stream_bit(cmp, bp));
                lemma_bit_is_01(cmp[(bp - 1) / 8], ((bp - 1) % 8) as u8);
            }
            if !flag {
                // Literal: the next 8 bits are the byte under the cursor.
                if !cursor.has_bits(8) {
                    return Err(CpkReaderError::DecoderCorruption);
                }
                let ghost bp1 = cursor.bitpos();
                let b = cursor.read_8(&self.input);
                self.output[w] = b;
                w = w - 1;
                proof {
                    lemma_stream_bits_bound(cmp, bp1, 8);
                    vstd::arithmetic::power2::lemma2_to64();
                    assert(b == spec_stream_bits(cmp, bp - 1, 8) as u8);
                    assert(self.output@ =~= out_at_entry.update(
                        w + 1,
                        spec_stream_bits(cmp, bp - 1, 8) as u8,
                    ));
                }
            } else {
                // Copy: a 13-bit offset, then the escalating length code.
                if !cursor.has_bits(13) {
                    return Err(CpkReaderError::DecoderCorruption);
                }
                let offraw = cursor.read_13(&self.input);
                let offset = offraw as usize + 3;
                let ghost bpl = cursor.bitpos();
                let length = match Self::read_copy_len(&mut cursor, &self.input) {
                    Ok(l) => l,
                    Err(_) => {
                        return Err(CpkReaderError::DecoderCorruption);
                    },
                };
                // The copy must stay at or above the prefix and read inside
                // the output.
                if length > (w as u64) - 0xff {
                    return Err(CpkReaderError::DecoderCorruption);
                }
                let lu = length as usize;
                if (w as u64) + (offset as u64) >= self.output.len() as u64 {
                    return Err(CpkReaderError::DecoderCorruption);
                }
                self.apply_copy(w, offset, lu);
                w = w - lu;
                proof {
                    assert(goal == spec_decode_loop(cmp, cursor.bitpos(), self.output@, w as int));
                }
            }
        }
        proof {
            assert(goal == Some(self.output@));
        }
        Ok(())
    }
}

/// Detection and top-level decompression of CRILAYLA payloads.
#[derive(Debug)]
pub struct LaylaDecompressor;

impl LaylaDecompressor {
    /// Whether a payload starts with the `CRILAYLA` magic.
    pub fn is_compressed(input: &Vec<u8>) -> (r: bool)
        ensures
            r == (input@.len() >= 8 && spec_le_u64(input@, 0) == spec_layla_magic()),
    {
        if input.len() < 8 {
            return false;
        }
        le_u64(input, 0) == 0x414C59414C495243
    }

    /// Decompress a whole CRILAYLA stream into a buffer drawn from the
    /// free list.  The node holds exactly the decoded image; a stream with
    /// no decoded image reports `DecoderCorruption` (or `Truncated` when
    /// even the header is missing) and leaves the free-list bitmap as it
    /// was.
    #[verifier::loop_isolation(false)]
    pub fn decompress(input: &Vec<u8>, free_list: &mut FreeList) -> (r: Result<
        FreeListNode,
        CpkReaderError,
    >)
        requires
            old(free_list).wf(),
            !old(free_list).lock,
        ensures
            final(free_list).wf(),
            !final(free_list).lock,
            match r {
                Ok(node) => {
                    &&& spec_decompress(input@) == Some(node.data@)
                    &&& node.managed ==> {
                        &&& node.start_block + crate::free_list::spec_into_block(
                            node.data@.len() as int,
                        ) <= 255
                        &&& forall|i: int|
                            node.start_block <= i < node.start_block
                                + crate::free_list::spec_into_block(node.data@.len() as int)
                                ==> crate::free_list::spec_bit(final(free_list).used@, i)
                        &&& crate::free_list::spec_count(final(free_list).used@)
                            == crate::free_list::spec_count(old(free_list).used@)
                            + crate::free_list::spec_into_block(node.data@.len() as int)
                    }
                    &&& !node.managed ==> final(free_list).used@ == old(free_list).used@
                },
                Err(e) => {
                    &&& (spec_decompress(input@) is None || 0x100 + spec_le_u32(input@, 8) + 262143
                        > usize::MAX)
                    &&& (e == CpkReaderError::DecoderCorruption || (e == CpkReaderError::Truncated
                        && input@.len() < 16))
                    &&& forall|i: int|
                        0 <= i < 256 ==> crate::free_list::spec_bit(final(free_list).used@, i)
                            == crate::free_list::spec_bit(old(free_list).used@, i)
                },
            },
    {
        let header = match LaylaHeader::from_stream(input) {
            Ok(hd) => hd,
            Err(e) => {
                return Err(e);
            },
        };
        let h = header.uncompressed_header_offset as usize;
        let u = header.uncompressed_size as usize;
        if input.len() - 16 < 0x100 || h > input.len() - 16 - 0x100 {
            return Err(CpkReaderError::DecoderCorruption);
        }
        if (u as u64) > (usize::MAX as u64) - 0x100 - 262143 {
            return Err(CpkReaderError::DecoderCorruption);
        }
        // The compressed region: everything after the header.
        let mut cmp: Vec<u8> = Vec::new();
        let mut i: usize = 16;
        while i < input.len()
            invariant
                16 <= i <= input@.len(),
                cmp@ == input@.subrange(16, i as int),
            decreases input@.len() - i,
        {
            let b = input[i];
            cmp.push(b);
            proof {
                assert(cmp@ =~= input@.subrange(16, i + 1));
            }
            i = i + 1;
        }
        let node = free_list.allocate(u + 0x100);
        let start_block = node.start_block;
        let managed = node.managed;
        let ghost used_after_alloc = free_list.used@;
        let mut im = LaylaDecompressorImpl::new(header, cmp, node.to_vec());
        match im.decompress() {
            Ok(()) => {
                let out = im.into_output();
                proof {
                    assert(spec_decompress(input@) == Some(out@));
                }
                Ok(FreeListNode { data: out, start_block, managed })
            },
            Err(_) => {
                let tmp = FreeListNode { data: im.into_output(), start_block, managed };
                free_list.deallocate(&tmp);
                Err(CpkReaderError::DecoderCorruption)
            },
        }
    }
}

} // verus!
