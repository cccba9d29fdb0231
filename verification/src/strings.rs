//! The interned string pool of a `@UTF` table.
//!
//! The pool is the byte region between the string-pool and data-pool
//! offsets: concatenated NUL-terminated strings.  A lookup succeeds
//! exactly at interning boundaries — offset 0 or any position following a
//! NUL — and yields the raw bytes up to the next NUL.  Decoding those
//! bytes (UTF-8 or Shift-JIS, per the header tag) is left to the
//! embedding application; every name this crate matches on is plain
//! ASCII either way.

use vstd::prelude::*;

use crate::errors::CpkReaderError;
use crate::header::TableHeader;

verus! {

/// Index of the first NUL at or after `ofs`, or the pool length when
/// there is none.
pub open spec fn spec_find_nul(pool: Seq<u8>, ofs: int) -> int
    decreases pool.len() - ofs,
{
    if ofs < 0 || ofs >= pool.len() {
        pool.len() as int
    } else if pool[ofs] == 0 {
        ofs
    } else {
        spec_find_nul(pool, ofs + 1)
    }
}

/// The string interned at `ofs`: present exactly when `ofs` starts a
/// segment (offset 0 or right after a NUL) and the segment is terminated.
pub open spec fn spec_get_string(pool: Seq<u8>, ofs: int) -> Option<Seq<u8>> {
    if 0 <= ofs < pool.len() && (ofs == 0 || pool[ofs - 1] == 0) {
        if spec_find_nul(pool, ofs) < pool.len() {
            Some(pool.subrange(ofs, spec_find_nul(pool, ofs)))
        } else {
            None
        }
    } else {
        None
    }
}

/// The pool region of a table image.
pub open spec fn spec_table_pool(s: Seq<u8>, header: TableHeader) -> Result<Seq<u8>, CpkReaderError> {
    if header.string_pool_offset > header.data_pool_offset || header.data_pool_offset > s.len() {
        Err(CpkReaderError::Truncated)
    } else {
        Ok(s.subrange(header.string_pool_offset as int, header.data_pool_offset as int))
    }
}

/// The string pool, copied out of its table image.
#[derive(Debug)]
pub struct StringPool {
    pub pool: Vec<u8>,
}

impl StringPool {
    /// Copy the pool region out of a table image.  `Truncated` when the
    /// region reaches past the image.
    pub fn new(data: &Vec<u8>, header: &TableHeader) -> (r: Result<StringPool, CpkReaderError>)
        ensures
            match r {
                Ok(p) => spec_table_pool(data@, *header) == Ok::<_, CpkReaderError>(p.pool@),
                Err(e) => spec_table_pool(data@, *header) == Err::<Seq<u8>, _>(e),
            },
    {
        if header.string_pool_offset > header.data_pool_offset || header.data_pool_offset > (
        data.len() as u64) {
            return Err(CpkReaderError::Truncated);
        }
        let start = header.string_pool_offset as usize;
        let end = header.data_pool_offset as usize;
        let mut pool: Vec<u8> = Vec::new();
        let mut i: usize = start;
        while i < end
            invariant
                start <= i <= end,
                end <= data@.len(),
                pool@ == data@.subrange(start as int, i as int),
            decreases end - i,
        {
            let b = data[i];
            pool.push(b);
            proof {
                assert(pool@ =~= data@.subrange(start as int, i + 1));
            }
            i = i + 1;
        }
        proof {
            assert(pool@ =~= data@.subrange(
                header.string_pool_offset as int,
                header.data_pool_offset as int,
            ));
        }
        Ok(StringPool { pool })
    }

    /// The string interned at `offset`, or nothing when `offset` is not
    /// an interning boundary or its segment is unterminated.
    pub fn get_string(&self, offset: u32) -> (r: Option<Vec<u8>>)
        ensures
            match r {
                Some(s) => spec_get_string(self.pool@, offset as int) == Some(s@),
                None => spec_get_string(self.pool@, offset as int) is None,
            },
    {
        let ofs = offset as usize;
        if ofs >= self.pool.len() {
            return None;
        }
        if ofs != 0 && self.pool[ofs - 1] != 0 {
            return None;
        }
        // Scan for the terminating NUL.
        let mut e: usize = ofs;
        while e < self.pool.len() && self.pool[e] != 0
            invariant
                ofs <= e <= self.pool@.len(),
                spec_find_nul(self.pool@, ofs as int) == spec_find_nul(self.pool@, e as int),
            decreases self.pool@.len() - e,
        {
            e = e + 1;
        }
        if e == self.pool.len() {
            return None;
        }
        let mut out: Vec<u8> = Vec::new();
        let mut i: usize = ofs;
        while i < e
            invariant
                ofs <= i <= e,
                e < self.pool@.len(),
                out@ == self.pool@.subrange(ofs as int, i as int),
            decreases e - i,
        {
            let b = self.pool[i];
            out.push(b);
            proof {
                assert(out@ =~= self.pool@.subrange(ofs as int, i + 1));
            }
            i = i + 1;
        }
        proof {
            assert(spec_find_nul(self.pool@, e as int) == e);
            assert(out@ =~= self.pool@.subrange(ofs as int, e as int));
        }
        Some(out)
    }
}

} // verus!
