//! Block-accounting free list for decompressor output buffers.
//!
//! The arena is carved into 256 blocks of 256 KiB tracked by a 256-bit
//! occupancy bitmap (four words).  `allocate` quantizes a request to whole
//! blocks, finds a run of clear bits at a stride-aligned index, marks it,
//! and hands out a scoped node; releasing the node through `deallocate`
//! clears the run again.  Requests that cannot be placed fall back to an
//! unmanaged node that leaves the bitmap untouched.  Nodes own their byte
//! buffers; the bitmap is the book-keeping that bounds how much managed
//! memory is outstanding at once.
//!
//! An arena shared between threads serializes the bitmap with a
//! test-and-set spin lock; with exclusive references that protocol
//! collapses to a flag asserted around each bitmap update, which
//! `acquire` and `unacquire` model.

use vstd::prelude::*;

verus! {

/// Number of blocks needed to hold `size` bytes.
pub open spec fn spec_into_block(size: int) -> int {
    (size + 262143) / 262144
}

/// Bit `i` of the 256-bit occupancy bitmap.
pub open spec fn spec_bit(used: Seq<u64>, i: int) -> bool {
    ((used[i / 64] >> ((i % 64) as u64)) & 1) == 1
}

/// Whether all of `[start, start + len)` is clear.
pub open spec fn spec_range_free(used: Seq<u64>, start: int, len: int) -> bool {
    forall|i: int| start <= i < start + len ==> !spec_bit(used, i)
}

/// A range rejected by the bounds test is left untouched by the bit
/// operations.
pub open spec fn spec_bits_rejected(start: int, len: int) -> bool {
    len == 0 || start + len > 255
}

/// Number of set bits among the first `n` of the bitmap.
pub open spec fn spec_count_upto(used: Seq<u64>, n: int) -> int
    decreases n,
{
    if n <= 0 {
        0
    } else {
        spec_count_upto(used, n - 1) + if spec_bit(used, n - 1) {
            1int
        } else {
            0int
        }
    }
}

/// Number of set bits in the whole bitmap.
pub open spec fn spec_count(used: Seq<u64>) -> int {
    spec_count_upto(used, 256)
}

/// MSB-first packing of `n` bitmap bits starting at `start`.
pub open spec fn spec_packed_bits(used: Seq<u64>, start: int, n: int) -> int
    decreases n,
{
    if n <= 0 {
        0
    } else {
        spec_packed_bits(used, start, n - 1) * 2 + if spec_bit(used, start + n - 1) {
            1int
        } else {
            0int
        }
    }
}

proof fn lemma_packed_zero(used: Seq<u64>, start: int, n: int)
    requires
        n >= 0,
    ensures
        0 <= spec_packed_bits(used, start, n),
        (spec_packed_bits(used, start, n) == 0) <==> (forall|i: int|
            start <= i < start + n ==> !spec_bit(used, i)),
    decreases n,
{
    if n > 0 {
        lemma_packed_zero(used, start, n - 1);
    }
}

/// Two bitmaps that differ exactly by setting the clear range
/// `[s, s + l)` differ by `l` in their set-bit count.
proof fn lemma_count_delta(u1: Seq<u64>, u2: Seq<u64>, s: int, l: int, n: int)
    requires
        0 <= s,
        0 <= l,
        s + l <= 256,
        forall|i: int|
            0 <= i < 256 ==> if s <= i < s + l {
                !spec_bit(u1, i) && spec_bit(u2, i)
            } else {
                spec_bit(u2, i) == spec_bit(u1, i)
            },
        0 <= n <= 256,
    ensures
        spec_count_upto(u2, n) == spec_count_upto(u1, n) + if n <= s {
            0
        } else if n < s + l {
            n - s
        } else {
            l
        },
    decreases n,
{
    if n > 0 {
        lemma_count_delta(u1, u2, s, l, n - 1);
    }
}

proof fn lemma_set_bit(x: u64, b: u64, i: u64)
    by (bit_vector)
    requires
        b < 64,
        i < 64,
    ensures
        ((x | (1u64 << b)) >> i) & 1 == if i == b {
            1u64
        } else {
            (x >> i) & 1
        },
{
}

proof fn lemma_clear_bit(x: u64, b: u64, i: u64)
    by (bit_vector)
    requires
        b < 64,
        i < 64,
    ensures
        ((x & !(1u64 << b)) >> i) & 1 == if i == b {
            0u64
        } else {
            (x >> i) & 1
        },
{
}

/// Occupancy bitmap of the block arena, with the sequential image of its
/// spin lock.
#[derive(Debug)]
pub struct FreeList {
    /// 256 blocks, one bit each.
    pub used: Vec<u64>,
    /// Lock flag held around bitmap updates.
    pub lock: bool,
}

impl FreeList {
    /// Four bitmap words, lock released.
    pub open spec fn wf(self) -> bool {
        self.used@.len() == 4
    }

    pub fn new() -> (r: FreeList)
        ensures
            r.wf(),
            !r.lock,
            forall|i: int| 0 <= i < 256 ==> !spec_bit(r.used@, i),
            spec_count(r.used@) == 0,
    {
        Self::new_without_alloc()
    }

    /// Bitmap-only construction; nodes own their buffers, so there is no
    /// arena memory to reserve up front.
    pub fn new_without_alloc() -> (r: FreeList)
        ensures
            r.wf(),
            !r.lock,
            forall|i: int| 0 <= i < 256 ==> !spec_bit(r.used@, i),
            spec_count(r.used@) == 0,
    {
        let mut used: Vec<u64> = Vec::new();
        used.push(0);
        used.push(0);
        used.push(0);
        used.push(0);
        let r = FreeList { used, lock: false };
        proof {
            assert forall|i: int| 0 <= i < 256 implies !spec_bit(r.used@, i) by {
                let sh = (i % 64) as u64;
                assert((0u64 >> sh) & 1 == 0) by (bit_vector);
            }
            lemma_count_zero(r.used@, 256);
        }
        r
    }

    /// Blocks covering `size` bytes.
    pub fn into_block(size: usize) -> (r: usize)
        requires
            size <= usize::MAX - 262143,
        ensures
            r == spec_into_block(size as int),
    {
        (size + 262143) / 262144
    }

    /// Take the bitmap lock.  With exclusive access the test-and-set
    /// loop always succeeds at once.
    pub fn acquire(&mut self)
        requires
            !old(self).lock,
        ensures
            final(self).lock,
            final(self).used == old(self).used,
    {
        self.lock = true;
    }

    /// Release the bitmap lock.
    pub fn unacquire(&mut self)
        ensures
            !final(self).lock,
            final(self).used == old(self).used,
    {
        self.lock = false;
    }

    /// Whether a range is degenerate or reaches past the last usable block.
    pub fn bit_bounds_check(start: usize, len: usize) -> (r: bool)
        ensures
            r == spec_bits_rejected(start as int, len as int),
    {
        if len == 0 {
            true
        } else if len > 255 {
            true
        } else {
            start > 255 - len
        }
    }

    /// Bit `i` of the bitmap.
    fn get_bit(&self, i: usize) -> (r: bool)
        requires
            self.wf(),
            i < 256,
        ensures
            r == spec_bit(self.used@, i as int),
    {
        ((self.used[i / 64] >> ((i % 64) as u64)) & 1) == 1
    }

    /// Whether all of `[start, start + len)` is clear.
    fn range_is_free(&self, start: usize, len: usize) -> (r: bool)
        requires
            self.wf(),
            start + len <= 256,
        ensures
            r == spec_range_free(self.used@, start as int, len as int),
    {
        let mut j: usize = 0;
        while j < len
            invariant
                self.wf(),
                j <= len,
                start + len <= 256,
                forall|i: int| start <= i < start + j ==> !spec_bit(self.used@, i),
            decreases len - j,
        {
            if self.get_bit(start + j) {
                return false;
            }
            j = j + 1;
        }
        true
    }

    /// The bits of `[start, start + min(len, 64))`, packed MSB-first; a
    /// range lying inside a single bitmap byte keeps its in-byte position.
    /// Degenerate or out-of-range requests report 0, i.e. free.
    pub fn check_occupation(&self, start: usize, len: usize) -> (r: u64)
        requires
            self.wf(),
        ensures
            ({
                let l = if len <= 64 {
                    len as int
                } else {
                    64
                };
                let b = (start as int) % 8;
                if spec_bits_rejected(start as int, len as int) {
                    r == 0
                } else if b != 0 && l <= 8 - b {
                    r == spec_packed_bits(self.used@, start as int, l) * vstd::arithmetic::power2::pow2(b as nat)
                } else {
                    r == spec_packed_bits(self.used@, start as int, l)
                }
            }),
            (r == 0) <==> (spec_bits_rejected(start as int, len as int) || spec_range_free(
                self.used@,
                start as int,
                if len <= 64 {
                    len as int
                } else {
                    64
                },
            )),
    {
        if Self::bit_bounds_check(start, len) {
            return 0;
        }
        let l: usize = if len <= 64 {
            len
        } else {
            64
        };
        let b: usize = start % 8;
        let mut res: u64 = 0;
        let mut j: usize = 0;
        proof {
            vstd::arithmetic::power2::lemma2_to64();
        }
        while j < l
            invariant
                self.wf(),
                j <= l,
                l <= 64,
                start + l <= 256,
                res == spec_packed_bits(self.used@, start as int, j as int),
                res < vstd::arithmetic::power2::pow2(j as nat),
            decreases l - j,
        {
            proof {
                vstd::arithmetic::power2::lemma_pow2_unfold((j + 1) as nat);
                if j + 1 < 64 {
                    vstd::arithmetic::power2::lemma_pow2_strictly_increases((j + 1) as nat, 64);
                }
                vstd::arithmetic::power2::lemma2_to64_rest();
            }
            let bit = self.get_bit(start + j);
            res = res * 2 + if bit {
                1
            } else {
                0
            };
            j = j + 1;
            proof {
                assert(spec_packed_bits(self.used@, start as int, j as int) == spec_packed_bits(
                    self.used@,
                    start as int,
                    j - 1,
                ) * 2 + if spec_bit(self.used@, start + j - 1) {
                    1int
                } else {
                    0int
                });
            }
        }
        proof {
            lemma_packed_zero(self.used@, start as int, l as int);
            lemma_packed_pow_bound(self.used@, start as int, l as int);
            vstd::arithmetic::power2::lemma2_to64_rest();
            if l < 64 {
                vstd::arithmetic::power2::lemma_pow2_strictly_increases(l as nat, 64);
            }
        }
        if b != 0 && l <= 8 - b {
            let p = pow2_u64(b);
            proof {
                vstd::arithmetic::power2::lemma_pow2_adds(l as nat, b as nat);
                if l + b < 8 {
                    vstd::arithmetic::power2::lemma_pow2_strictly_increases((l + b) as nat, 8);
                }
                vstd::arithmetic::power2::lemma2_to64();
                vstd::arithmetic::mul::lemma_mul_strict_inequality(
                    res as int,
                    vstd::arithmetic::power2::pow2(l as nat) as int,
                    p as int,
                );
                lemma_mul_zero(res as int, p as int);
            }
            res * p
        } else {
            res
        }
    }

    /// Set `[start, start + len)` in the bitmap; degenerate or
    /// out-of-range requests leave it untouched.
    #[verifier::spinoff_prover]
    #[verifier::rlimit(30)]
    pub fn bit_on(&mut self, start: usize, len: usize)
        requires
            old(self).wf(),
        ensures
            final(self).wf(),
            final(self).lock == old(self).lock,
            forall|i: int|
                0 <= i < 256 ==> spec_bit(final(self).used@, i) == (spec_bit(old(self).used@, i)
                    || (!spec_bits_rejected(start as int, len as int) && start <= i < start
                    + len)),
    {
        if Self::bit_bounds_check(start, len) {
            return ;
        }
        let mut j: usize = 0;
        while j < len
            invariant
                self.wf(),
                self.lock == old(self).lock,
                j <= len,
                start + len <= 255,
                forall|i: int|
                    0 <= i < 256 ==> spec_bit(self.used@, i) == (spec_bit(old(self).used@, i) || (
                    start <= i < start + j)),
            decreases len - j,
        {
            let ghost prev = self.used@;
            let idx = start + j;
            let w = idx / 64;
            let sh = (idx % 64) as u64;
            self.used[w] = self.used[w] | (1u64 << sh);
            proof {
                assert forall|i: int| 0 <= i < 256 implies spec_bit(self.used@, i) == (spec_bit(
                    prev,
                    i,
                ) || i == idx) by {
                    lemma_set_bit(prev[i / 64], sh, (i % 64) as u64);
                    if i / 64 != w {
                        assert(self.used@[i / 64] == prev[i / 64]);
                    } else {
                        assert(i == idx <==> (i % 64) as u64 == sh && i / 64 == w);
                    }
                }
            }
            j = j + 1;
        }
    }

    /// Clear `[start, start + len)` in the bitmap; degenerate or
    /// out-of-range requests leave it untouched.
    #[verifier::spinoff_prover]
    #[verifier::rlimit(30)]
    pub fn bit_off(&mut self, start: usize, len: usize)
        requires
            old(self).wf(),
        ensures
            final(self).wf(),
            final(self).lock == old(self).lock,
            forall|i: int|
                0 <= i < 256 ==> spec_bit(final(self).used@, i) == (spec_bit(old(self).used@, i)
                    && !(!spec_bits_rejected(start as int, len as int) && start <= i < start
                    + len)),
    {
        if Self::bit_bounds_check(start, len) {
            return ;
        }
        let mut j: usize = 0;
        while j < len
            invariant
                self.wf(),
                self.lock == old(self).lock,
                j <= len,
                start + len <= 255,
                forall|i: int|
                    0 <= i < 256 ==> spec_bit(self.used@, i) == (spec_bit(old(self).used@, i) && !(
                    start <= i < start + j)),
            decreases len - j,
        {
            let ghost prev = self.used@;
            let idx = start + j;
            let w = idx / 64;
            let sh = (idx % 64) as u64;
            self.used[w] = self.used[w] & !(1u64 << sh);
            proof {
                assert forall|i: int| 0 <= i < 256 implies spec_bit(self.used@, i) == (spec_bit(
                    prev,
                    i,
                ) && i != idx) by {
                    lemma_clear_bit(prev[i / 64], sh, (i % 64) as u64);
                    if i / 64 != w {
                        assert(self.used@[i / 64] == prev[i / 64]);
                    } else {
                        assert(i == idx <==> (i % 64) as u64 == sh && i / 64 == w);
                    }
                }
            }
            j = j + 1;
        }
    }

    /// First stride-aligned run of `size` clear blocks, scanning from 0
    /// with a step of `size`; `usize::MAX` when no aligned run fits.
    #[verifier::loop_isolation(false)]
    fn get_free_block_index(&self, size: usize) -> (r: usize)
        requires
            self.wf(),
        ensures
            r != usize::MAX ==> {
                &&& r + size <= 255
                &&& spec_range_free(self.used@, r as int, size as int)
                &&& forall|m: int|
                    0 <= m && m * size < r ==> !#[trigger] spec_range_free(
                        self.used@,
                        m * size,
                        size as int,
                    )
            },
            r == usize::MAX ==> forall|m: int|
                0 <= m && m * size + size <= 255 ==> !#[trigger] spec_range_free(
                    self.used@,
                    m * size,
                    size as int,
                ),
    {
        let mut start: usize = 0;
        let ghost mut q: int = 0;
        loop
            invariant
                self.wf(),
                start <= 255,
                q >= 0,
                start == q * size,
                forall|m: int|
                    0 <= m && m * size < start ==> !#[trigger] spec_range_free(
                        self.used@,
                        m * size,
                        size as int,
                    ),
            decreases 256 - start as int,
        {
            if size > 255 || start > 255 - size {
                proof {
                    assert forall|m: int|
                        0 <= m && m * size + size <= 255 implies !#[trigger] spec_range_free(
                        self.used@,
                        m * size,
                        size as int,
                    ) by {
                        if m * size >= start {
                            assert(m * size >= start && m * size + size <= 255 && start + size
                                > 255 ==> false) by (nonlinear_arith)
                                requires
                                    m * size >= start,
                            ;
                        }
                    }
                }
                return usize::MAX;
            }
            if self.range_is_free(start, size) {
                return start;
            }
            assert(size > 0) by {
                if size == 0 {
                    assert(spec_range_free(self.used@, start as int, 0));
                }
            }
            proof {
                assert forall|m: int|
                    0 <= m && m * size < start + size implies !#[trigger] spec_range_free(
                    self.used@,
                    m * size,
                    size as int,
                ) by {
                    if m * size >= start {
                        assert(m == q) by (nonlinear_arith)
                            requires
                                start <= m * size < start + size,
                                start == q * size,
                                size > 0,
                                m >= 0,
                                q >= 0,
                        ;
                    }
                }
                assert((q + 1) * size == q * size + size) by (nonlinear_arith);
                q = q + 1;
            }
            start = start + size;
        }
    }

    /// Reserve blocks for `size` bytes and hand out a zeroed scoped
    /// buffer.  The first stride-aligned run of clear blocks is marked
    /// and recorded in the node; the set-bit count grows by exactly the
    /// node's block count.  Only when no aligned run fits does the
    /// request fall back to an unmanaged node, leaving the bitmap
    /// untouched.
    pub fn allocate(&mut self, size: usize) -> (r: FreeListNode)
        requires
            old(self).wf(),
            !old(self).lock,
            size <= usize::MAX - 262143,
        ensures
            final(self).wf(),
            !final(self).lock,
            r.data@.len() == size,
            forall|j: int| 0 <= j < size ==> r.data@[j] == 0,
            r.managed ==> r.start_block + spec_into_block(size as int) <= 255,
            r.managed ==> spec_range_free(
                old(self).used@,
                r.start_block as int,
                spec_into_block(size as int),
            ),
            r.managed ==> forall|m: int|
                0 <= m && m * spec_into_block(size as int) < r.start_block
                    ==> !#[trigger] spec_range_free(
                    old(self).used@,
                    m * spec_into_block(size as int),
                    spec_into_block(size as int),
                ),
            !r.managed ==> forall|m: int|
                0 <= m && m * spec_into_block(size as int) + spec_into_block(size as int) <= 255
                    ==> !#[trigger] spec_range_free(
                    old(self).used@,
                    m * spec_into_block(size as int),
                    spec_into_block(size as int),
                ),
            r.managed ==> forall|i: int|
                0 <= i < 256 ==> spec_bit(final(self).used@, i) == (spec_bit(old(self).used@, i)
                    || (r.start_block <= i < r.start_block + spec_into_block(size as int)
                    && spec_into_block(size as int) > 0)),
            r.managed ==> spec_count(final(self).used@) == spec_count(old(self).used@)
                + spec_into_block(size as int),
            !r.managed ==> final(self).used@ == old(self).used@,
    {
        let blocks = Self::into_block(size);
        self.acquire();
        let start = self.get_free_block_index(blocks);
        if start == usize::MAX {
            self.unacquire();
            return FreeListNode::new_unmanaged(size);
        }
        let ghost before = self.used@;
        self.bit_on(start, blocks);
        proof {
            if blocks > 0 {
                lemma_count_delta(before, self.used@, start as int, blocks as int, 256);
            } else {
                assert forall|i: int| 0 <= i < 256 implies spec_bit(self.used@, i) == spec_bit(
                    before,
                    i,
                ) by {}
                lemma_count_same(before, self.used@, 256);
            }
        }
        self.unacquire();
        FreeListNode::new_managed(alloc_zeroed(size), start)
    }

    /// Release a managed node's blocks; the set-bit count shrinks by the
    /// node's block count.  Unmanaged nodes leave the bitmap untouched.
    pub fn deallocate(&mut self, p: &FreeListNode)
        requires
            old(self).wf(),
            !old(self).lock,
            p.data@.len() <= usize::MAX - 262143,
            p.managed ==> p.start_block + spec_into_block(p.data@.len() as int) <= 255,
            p.managed ==> forall|i: int|
                p.start_block <= i < p.start_block + spec_into_block(p.data@.len() as int)
                    ==> spec_bit(old(self).used@, i),
        ensures
            final(self).wf(),
            !final(self).lock,
            p.managed ==> forall|i: int|
                0 <= i < 256 ==> spec_bit(final(self).used@, i) == (spec_bit(old(self).used@, i)
                    && !(p.start_block <= i < p.start_block + spec_into_block(
                    p.data@.len() as int,
                ) && spec_into_block(p.data@.len() as int) > 0)),
            p.managed ==> spec_count(final(self).used@) == spec_count(old(self).used@)
                - spec_into_block(p.data@.len() as int),
            !p.managed ==> final(self).used@ == old(self).used@,
    {
        self.acquire();
        if p.managed {
            let blocks = Self::into_block(p.data.len());
            let ghost before = self.used@;
            self.bit_off(p.start_block, blocks);
            proof {
                if blocks > 0 {
                    lemma_count_delta(self.used@, before, p.start_block as int, blocks as int, 256);
                } else {
                    assert forall|i: int| 0 <= i < 256 implies spec_bit(self.used@, i) == spec_bit(
                        before,
                        i,
                    ) by {}
                    lemma_count_same(before, self.used@, 256);
                }
            }
        }
        self.unacquire();
    }
}

proof fn lemma_count_zero(used: Seq<u64>, n: int)
    requires
        forall|i: int| 0 <= i < n ==> !spec_bit(used, i),
        n >= 0,
    ensures
        spec_count_upto(used, n) == 0,
    decreases n,
{
    if n > 0 {
        lemma_count_zero(used, n - 1);
    }
}

proof fn lemma_count_same(u1: Seq<u64>, u2: Seq<u64>, n: int)
    requires
        forall|i: int| 0 <= i < n ==> spec_bit(u1, i) == spec_bit(u2, i),
        n >= 0,
    ensures
        spec_count_upto(u1, n) == spec_count_upto(u2, n),
    decreases n,
{
    if n > 0 {
        lemma_count_same(u1, u2, n - 1);
    }
}

proof fn lemma_packed_pow_bound(used: Seq<u64>, start: int, n: int)
    requires
        n >= 0,
    ensures
        0 <= spec_packed_bits(used, start, n) < vstd::arithmetic::power2::pow2(n as nat),
    decreases n,
{
    vstd::arithmetic::power2::lemma_pow2_pos(n as nat);
    if n > 0 {
        lemma_packed_pow_bound(used, start, n - 1);
        vstd::arithmetic::power2::lemma_pow2_unfold(n as nat);
    }
}

proof fn lemma_mul_zero(a: int, b: int)
    requires
        a >= 0,
        b >= 1,
    ensures
        (a * b == 0) <==> (a == 0),
{
    if a > 0 {
        vstd::arithmetic::mul::lemma_mul_strictly_positive(a, b);
    }
}

/// `2^b` for `b <= 7`.
fn pow2_u64(b: usize) -> (r: u64)
    requires
        b <= 7,
    ensures
        r == vstd::arithmetic::power2::pow2(b as nat),
        r >= 1,
{
    proof {
        vstd::arithmetic::power2::lemma2_to64();
    }
    match b {
        0 => 1,
        1 => 2,
        2 => 4,
        3 => 8,
        4 => 16,
        5 => 32,
        6 => 64,
        _ => 128,
    }
}

/// A zeroed byte buffer.
fn alloc_zeroed(size: usize) -> (r: Vec<u8>)
    ensures
        r@.len() == size,
        forall|j: int| 0 <= j < size ==> r@[j] == 0,
{
    let mut v: Vec<u8> = Vec::new();
    let mut i: usize = 0;
    while i < size
        invariant
            i <= size,
            v@.len() == i,
            forall|j: int| 0 <= j < i ==> v@[j] == 0,
        decreases size - i,
    {
        v.push(0);
        i = i + 1;
    }
    v
}

/// Scoped buffer handed out by the free list.  A managed node records the
/// block run reserved for it; an unmanaged node came from the fallback
/// path and owns plain heap memory.
#[derive(Debug)]
pub struct FreeListNode {
    /// The buffer itself.
    pub data: Vec<u8>,
    /// First reserved block of a managed node.
    pub start_block: usize,
    /// Whether blocks are reserved in the owning arena's bitmap.
    pub managed: bool,
}

impl FreeListNode {
    pub fn new_managed(data: Vec<u8>, start_block: usize) -> (r: FreeListNode)
        ensures
            r.data@ == data@,
            r.start_block == start_block,
            r.managed,
    {
        FreeListNode { data, start_block, managed: true }
    }

    pub fn new_unmanaged(size: usize) -> (r: FreeListNode)
        ensures
            r.data@.len() == size,
            forall|j: int| 0 <= j < size ==> r.data@[j] == 0,
            !r.managed,
    {
        FreeListNode { data: alloc_zeroed(size), start_block: 0, managed: false }
    }

    pub fn as_slice(&self) -> (r: &[u8])
        ensures
            r@ == self.data@,
    {
        self.data.as_slice()
    }

    pub fn as_mut_slice(&mut self) -> &mut Vec<u8> {
        &mut self.data
    }

    pub fn to_vec(self) -> (r: Vec<u8>)
        ensures
            r@ == self.data@,
    {
        self.data
    }
}

} // verus!
