//! The CPK reader: header-table traversal, file catalog, and the
//! seek/read/decrypt/decompress pipeline.
//!
//! `get_files` reads the framed header table at the start of the archive,
//! pulls `TocOffset` and `ContentOffset` out of its first row, applies
//! the rebase rule for archives whose TOC sits below the content region,
//! then reads the framed TOC table and turns each of its rows into a
//! `CpkFile`.  `extract_file` slices the payload out of the content
//! region, reverses the per-file scrambling for marked files of a reader
//! opened with that policy, and inflates CRILAYLA payloads.

use vstd::prelude::*;

use crate::columns::Column;
use crate::container::spec_table_container;
use crate::container::TableContainer;
use crate::errors::CpkReaderError;
use crate::file::CpkFile;
use crate::free_list::FreeList;
use crate::high_table::spec_high_table;
use crate::high_table::HighTable;
use crate::layla::spec_decompress;
use crate::layla::spec_layla_magic;
use crate::layla::LaylaDecompressor;
use crate::bytes::spec_le_u32;
use crate::bytes::spec_le_u64;
use crate::p5r::spec_encrypt_sentinel;
use crate::p5r::spec_p5r_decrypt;
use crate::p5r::P5RDecryptor;
use crate::rows::spec_rows_view;
use crate::rows::Row;
use crate::rows::RowValue;
use crate::strings::spec_get_string;
use crate::strings::StringPool;

verus! {

/// `"TocOffset"` as raw bytes.
pub open spec fn spec_name_toc_offset() -> Seq<u8> {
    seq![0x54u8, 0x6fu8, 0x63u8, 0x4fu8, 0x66u8, 0x66u8, 0x73u8, 0x65u8, 0x74u8]
}

/// `"ContentOffset"` as raw bytes.
pub open spec fn spec_name_content_offset() -> Seq<u8> {
    seq![0x43u8, 0x6fu8, 0x6eu8, 0x74u8, 0x65u8, 0x6eu8, 0x74u8, 0x4fu8, 0x66u8, 0x66u8, 0x73u8, 0x65u8, 0x74u8]
}

/// `"DirName"` as raw bytes.
pub open spec fn spec_name_dir_name() -> Seq<u8> {
    seq![0x44u8, 0x69u8, 0x72u8, 0x4eu8, 0x61u8, 0x6du8, 0x65u8]
}

/// `"FileName"` as raw bytes.
pub open spec fn spec_name_file_name() -> Seq<u8> {
    seq![0x46u8, 0x69u8, 0x6cu8, 0x65u8, 0x4eu8, 0x61u8, 0x6du8, 0x65u8]
}

/// `"FileSize"` as raw bytes.
pub open spec fn spec_name_file_size() -> Seq<u8> {
    seq![0x46u8, 0x69u8, 0x6cu8, 0x65u8, 0x53u8, 0x69u8, 0x7au8, 0x65u8]
}

/// `"ExtractSize"` as raw bytes.
pub open spec fn spec_name_extract_size() -> Seq<u8> {
    seq![0x45u8, 0x78u8, 0x74u8, 0x72u8, 0x61u8, 0x63u8, 0x74u8, 0x53u8, 0x69u8, 0x7au8, 0x65u8]
}

/// `"FileOffset"` as raw bytes.
pub open spec fn spec_name_file_offset() -> Seq<u8> {
    seq![0x46u8, 0x69u8, 0x6cu8, 0x65u8, 0x4fu8, 0x66u8, 0x66u8, 0x73u8, 0x65u8, 0x74u8]
}

/// `"UserString"` as raw bytes.
pub open spec fn spec_name_user_string() -> Seq<u8> {
    seq![0x55u8, 0x73u8, 0x65u8, 0x72u8, 0x53u8, 0x74u8, 0x72u8, 0x69u8, 0x6eu8, 0x67u8]
}
fn is_name_toc_offset(s: &Vec<u8>) -> (r: bool)
    ensures
        r == (s@ == spec_name_toc_offset()),
{
    if s.len() != 9 {
        proof {
            assert(spec_name_toc_offset().len() == 9);
        }
        return false;
    }
    let r = s[0] == 0x54 && s[1] == 0x6f && s[2] == 0x63 && s[3] == 0x4f && s[4] == 0x66 && s[5] == 0x66 && s[6] == 0x73 && s[7] == 0x65 && s[8] == 0x74;
    proof {
        if r {
            assert(s@ =~= spec_name_toc_offset());
        }
    }
    r
}

fn is_name_content_offset(s: &Vec<u8>) -> (r: bool)
    ensures
        r == (s@ == spec_name_content_offset()),
{
    if s.len() != 13 {
        proof {
            assert(spec_name_content_offset().len() == 13);
        }
        return false;
    }
    let r = s[0] == 0x43 && s[1] == 0x6f && s[2] == 0x6e && s[3] == 0x74 && s[4] == 0x65 && s[5] == 0x6e && s[6] == 0x74 && s[7] == 0x4f && s[8] == 0x66 && s[9] == 0x66 && s[10] == 0x73 && s[11] == 0x65 && s[12] == 0x74;
    proof {
        if r {
            assert(s@ =~= spec_name_content_offset());
        }
    }
    r
}

fn is_name_dir_name(s: &Vec<u8>) -> (r: bool)
    ensures
        r == (s@ == spec_name_dir_name()),
{
    if s.len() != 7 {
        proof {
            assert(spec_name_dir_name().len() == 7);
        }
        return false;
    }
    let r = s[0] == 0x44 && s[1] == 0x69 && s[2] == 0x72 && s[3] == 0x4e && s[4] == 0x61 && s[5] == 0x6d && s[6] == 0x65;
    proof {
        if r {
            assert(s@ =~= spec_name_dir_name());
        }
    }
    r
}

fn is_name_file_name(s: &Vec<u8>) -> (r: bool)
    ensures
        r == (s@ == spec_name_file_name()),
{
    if s.len() != 8 {
        proof {
            assert(spec_name_file_name().len() == 8);
        }
        return false;
    }
    let r = s[0] == 0x46 && s[1] == 0x69 && s[2] == 0x6c && s[3] == 0x65 && s[4] == 0x4e && s[5] == 0x61 && s[6] == 0x6d && s[7] == 0x65;
    proof {
        if r {
            assert(s@ =~= spec_name_file_name());
        }
    }
    r
}

fn is_name_file_size(s: &Vec<u8>) -> (r: bool)
    ensures
        r == (s@ == spec_name_file_size()),
{
    if s.len() != 8 {
        proof {
            assert(spec_name_file_size().len() == 8);
        }
        return false;
    }
    let r = s[0] == 0x46 && s[1] == 0x69 && s[2] == 0x6c && s[3] == 0x65 && s[4] == 0x53 && s[5] == 0x69 && s[6] == 0x7a && s[7] == 0x65;
    proof {
        if r {
            assert(s@ =~= spec_name_file_size());
        }
    }
    r
}

fn is_name_extract_size(s: &Vec<u8>) -> (r: bool)
    ensures
        r == (s@ == spec_name_extract_size()),
{
    if s.len() != 11 {
        proof {
            assert(spec_name_extract_size().len() == 11);
        }
        return false;
    }
    let r = s[0] == 0x45 && s[1] == 0x78 && s[2] == 0x74 && s[3] == 0x72 && s[4] == 0x61 && s[5] == 0x63 && s[6] == 0x74 && s[7] == 0x53 && s[8] == 0x69 && s[9] == 0x7a && s[10] == 0x65;
    proof {
        if r {
            assert(s@ =~= spec_name_extract_size());
        }
    }
    r
}

fn is_name_file_offset(s: &Vec<u8>) -> (r: bool)
    ensures
        r == (s@ == spec_name_file_offset()),
{
    if s.len() != 10 {
        proof {
            assert(spec_name_file_offset().len() == 10);
        }
        return false;
    }
    let r = s[0] == 0x46 && s[1] == 0x69 && s[2] == 0x6c && s[3] == 0x65 && s[4] == 0x4f && s[5] == 0x66 && s[6] == 0x66 && s[7] == 0x73 && s[8] == 0x65 && s[9] == 0x74;
    proof {
        if r {
            assert(s@ =~= spec_name_file_offset());
        }
    }
    r
}

fn is_name_user_string(s: &Vec<u8>) -> (r: bool)
    ensures
        r == (s@ == spec_name_user_string()),
{
    if s.len() != 10 {
        proof {
            assert(spec_name_user_string().len() == 10);
        }
        return false;
    }
    let r = s[0] == 0x55 && s[1] == 0x73 && s[2] == 0x65 && s[3] == 0x72 && s[4] == 0x53 && s[5] == 0x74 && s[6] == 0x72 && s[7] == 0x69 && s[8] == 0x6e && s[9] == 0x67;
    proof {
        if r {
            assert(s@ =~= spec_name_user_string());
        }
    }
    r
}
/// The sentinel meaning "no offset found yet" while scanning the header
/// table.
pub open spec fn spec_unset() -> u64 {
    0xFFFFFFFFFFFFFFFFu64
}

/// Scan of the header table's first row for `TocOffset` and
/// `ContentOffset`: named, row-stored u64 cells, first match kept, the
/// scan stopping once both are found.
pub open spec fn spec_scan_header(
    cols: Seq<Column>,
    row0: Seq<RowValue>,
    pool: Seq<u8>,
    i: int,
    toc: u64,
    content: u64,
) -> (u64, u64)
    decreases cols.len() - i,
{
    if i < 0 || i >= cols.len() || i >= row0.len() {
        (toc, content)
    } else if toc != spec_unset() && content != spec_unset() {
        (toc, content)
    } else {
        let c = cols[i];
        let hit = c.flag & 0x10 != 0 && c.flag & 0x40 != 0 && row0[i] is UInt64
            && spec_get_string(pool, c.string_offset as int) is Some;
        if hit {
            let v = row0[i]->UInt64_0;
            let nm = spec_get_string(pool, c.string_offset as int)->Some_0;
            if nm == spec_name_toc_offset() {
                spec_scan_header(cols, row0, pool, i + 1, v, content)
            } else if nm == spec_name_content_offset() {
                spec_scan_header(cols, row0, pool, i + 1, toc, v)
            } else {
                spec_scan_header(cols, row0, pool, i + 1, toc, content)
            }
        } else {
            spec_scan_header(cols, row0, pool, i + 1, toc, content)
        }
    }
}

/// Positions of the six TOC columns, `usize::MAX` where a name never
/// occurs; a repeated name keeps its last occurrence.
#[derive(Debug, Clone, Copy, PartialEq, Eq, Structural)]
pub struct TocTableIndices {
    pub dir_name: usize,
    pub file_name: usize,
    pub file_size: usize,
    pub extract_size: usize,
    pub file_offset: usize,
    pub user_string: usize,
}

/// One step of the TOC column scan: a resolvable column name updates the
/// matching index.
pub open spec fn spec_indices_step(
    acc: TocTableIndices,
    c: Column,
    pool: Seq<u8>,
    i: int,
) -> TocTableIndices {
    if spec_get_string(pool, c.string_offset as int) is Some {
        let nm = spec_get_string(pool, c.string_offset as int)->Some_0;
        if nm == spec_name_dir_name() {
            TocTableIndices { dir_name: i as usize, ..acc }
        } else if nm == spec_name_file_name() {
            TocTableIndices { file_name: i as usize, ..acc }
        } else if nm == spec_name_file_size() {
            TocTableIndices { file_size: i as usize, ..acc }
        } else if nm == spec_name_extract_size() {
            TocTableIndices { extract_size: i as usize, ..acc }
        } else if nm == spec_name_file_offset() {
            TocTableIndices { file_offset: i as usize, ..acc }
        } else if nm == spec_name_user_string() {
            TocTableIndices { user_string: i as usize, ..acc }
        } else {
            acc
        }
    } else {
        acc
    }
}

/// The TOC column scan from column `i` on.
pub open spec fn spec_scan_indices(
    cols: Seq<Column>,
    pool: Seq<u8>,
    i: int,
    acc: TocTableIndices,
) -> TocTableIndices
    decreases cols.len() - i,
{
    if i < 0 || i >= cols.len() {
        acc
    } else {
        spec_scan_indices(cols, pool, i + 1, spec_indices_step(acc, cols[i], pool, i))
    }
}

/// All six indices unset.
pub open spec fn spec_indices_init() -> TocTableIndices {
    TocTableIndices {
        dir_name: usize::MAX,
        file_name: usize::MAX,
        file_size: usize::MAX,
        extract_size: usize::MAX,
        file_offset: usize::MAX,
        user_string: usize::MAX,
    }
}

impl TocTableIndices {
    /// Scan the TOC columns for the six file-record names.
    pub fn new(pool: &StringPool, cols: &Vec<Column>) -> (r: TocTableIndices)
        ensures
            r == spec_scan_indices(cols@, pool.pool@, 0, spec_indices_init()),
    {
        let mut inst = TocTableIndices {
            dir_name: usize::MAX,
            file_name: usize::MAX,
            file_size: usize::MAX,
            extract_size: usize::MAX,
            file_offset: usize::MAX,
            user_string: usize::MAX,
        };
        let mut i: usize = 0;
        while i < cols.len()
            invariant
                i <= cols@.len(),
                spec_scan_indices(cols@, pool.pool@, 0, spec_indices_init())
                    == spec_scan_indices(cols@, pool.pool@, i as int, inst),
            decreases cols@.len() - i,
        {
            let c = &cols[i];
            match pool.get_string(c.get_offset()) {
                Some(s) => {
                    if is_name_dir_name(&s) {
                        inst.dir_name = i;
                    } else if is_name_file_name(&s) {
                        inst.file_name = i;
                    } else if is_name_file_size(&s) {
                        inst.file_size = i;
                    } else if is_name_extract_size(&s) {
                        inst.extract_size = i;
                    } else if is_name_file_offset(&s) {
                        inst.file_offset = i;
                    } else if is_name_user_string(&s) {
                        inst.user_string = i;
                    }
                },
                None => {},
            }
            i = i + 1;
        }
        inst
    }
}

/// A required string cell, from the row or the column's default: present
/// exactly when the cell (or, for a `Nil` cell, the default) is a string
/// that resolves in the pool.
pub open spec fn spec_cpk_string_may_default(
    row: Seq<RowValue>,
    col: Column,
    pool: Seq<u8>,
    idx: int,
) -> Result<Seq<u8>, CpkReaderError> {
    if !(0 <= idx < row.len()) {
        Err(CpkReaderError::NoFileName)
    } else {
        match row[idx] {
            RowValue::String(ofs) => match spec_get_string(pool, ofs as int) {
                Some(s) => Ok(s),
                None => Err(CpkReaderError::NoFileName),
            },
            RowValue::Nil => match col.default_value {
                Some(RowValue::String(ofs)) => match spec_get_string(pool, ofs as int) {
                    Some(s) => Ok(s),
                    None => Err(CpkReaderError::NoFileName),
                },
                _ => Err(CpkReaderError::NoFileName),
            },
            _ => Err(CpkReaderError::WrongRowValueType),
        }
    }
}

/// The file-name cell: a string stored in the row itself.
pub open spec fn spec_cpk_file_name(row: Seq<RowValue>, pool: Seq<u8>, idx: int) -> Result<
    Seq<u8>,
    CpkReaderError,
> {
    if !(0 <= idx < row.len()) {
        Err(CpkReaderError::NoFileName)
    } else {
        match row[idx] {
            RowValue::String(ofs) => match spec_get_string(pool, ofs as int) {
                Some(s) => Ok(s),
                None => Err(CpkReaderError::NoFileName),
            },
            _ => Err(CpkReaderError::WrongRowValueType),
        }
    }
}

/// A u32 cell at a known-present column.
pub open spec fn spec_cpk_u32(row: Seq<RowValue>, idx: int) -> Result<u32, CpkReaderError> {
    if !(0 <= idx < row.len()) {
        Err(CpkReaderError::NoFileName)
    } else {
        match row[idx] {
            RowValue::UInt32(v) => Ok(v),
            _ => Err(CpkReaderError::WrongRowValueType),
        }
    }
}

/// A u64 cell at a known-present column.
pub open spec fn spec_cpk_u64(row: Seq<RowValue>, idx: int) -> Result<u64, CpkReaderError> {
    if !(0 <= idx < row.len()) {
        Err(CpkReaderError::NoFileName)
    } else {
        match row[idx] {
            RowValue::UInt64(v) => Ok(v),
            _ => Err(CpkReaderError::WrongRowValueType),
        }
    }
}

impl Row {
    /// The file-name cell: a string stored in the row itself.
    pub fn cpk_get_file_name(&self, string_pool: &StringPool, col_index: usize) -> (r: Result<
        Vec<u8>,
        CpkReaderError,
    >)
        ensures
            match r {
                Ok(s) => spec_cpk_file_name(self.values@, string_pool.pool@, col_index as int)
                    == Ok::<_, CpkReaderError>(s@),
                Err(e) => spec_cpk_file_name(self.values@, string_pool.pool@, col_index as int)
                    == Err::<Seq<u8>, _>(e),
            },
    {
        if col_index >= self.values.len() {
            return Err(CpkReaderError::NoFileName);
        }
        match self.values[col_index] {
            RowValue::String(ofs) => match string_pool.get_string(ofs) {
                Some(s) => Ok(s),
                None => Err(CpkReaderError::NoFileName),
            },
            _ => Err(CpkReaderError::WrongRowValueType),
        }
    }

    /// A u32 cell at a known-present column.
    pub fn cpk_get_u32_value(&self, col_index: usize) -> (r: Result<u32, CpkReaderError>)
        ensures
            r == spec_cpk_u32(self.values@, col_index as int),
    {
        if col_index >= self.values.len() {
            return Err(CpkReaderError::NoFileName);
        }
        match self.values[col_index] {
            RowValue::UInt32(v) => Ok(v),
            _ => Err(CpkReaderError::WrongRowValueType),
        }
    }

    /// The stored payload size; `NoFileSize` when the column is absent.
    pub fn cpk_get_file_size(&self, col_index: usize) -> (r: Result<u32, CpkReaderError>)
        ensures
            r == (if col_index == usize::MAX {
                Err::<u32, CpkReaderError>(CpkReaderError::NoFileSize)
            } else {
                spec_cpk_u32(self.values@, col_index as int)
            }),
    {
        if col_index == usize::MAX {
            return Err(CpkReaderError::NoFileSize);
        }
        self.cpk_get_u32_value(col_index)
    }

    /// The extracted payload size; `NoExtractSize` when the column is
    /// absent.
    pub fn cpk_get_extract_size(&self, col_index: usize) -> (r: Result<u32, CpkReaderError>)
        ensures
            r == (if col_index == usize::MAX {
                Err::<u32, CpkReaderError>(CpkReaderError::NoExtractSize)
            } else {
                spec_cpk_u32(self.values@, col_index as int)
            }),
    {
        if col_index == usize::MAX {
            return Err(CpkReaderError::NoExtractSize);
        }
        self.cpk_get_u32_value(col_index)
    }

    /// The payload offset cell.
    pub fn cpk_get_file_offset(&self, col_index: usize) -> (r: Result<u64, CpkReaderError>)
        ensures
            r == spec_cpk_u64(self.values@, col_index as int),
    {
        if col_index >= self.values.len() {
            return Err(CpkReaderError::NoFileName);
        }
        match self.values[col_index] {
            RowValue::UInt64(v) => Ok(v),
            _ => Err(CpkReaderError::WrongRowValueType),
        }
    }

    /// A required string cell, from the row or the column's default.
    pub fn cpk_get_string_may_default(
        &self,
        column: &Column,
        string_pool: &StringPool,
        col_index: usize,
    ) -> (r: Result<Vec<u8>, CpkReaderError>)
        ensures
            match r {
                Ok(s) => spec_cpk_string_may_default(
                    self.values@,
                    *column,
                    string_pool.pool@,
                    col_index as int,
                ) == Ok::<_, CpkReaderError>(s@),
                Err(e) => spec_cpk_string_may_default(
                    self.values@,
                    *column,
                    string_pool.pool@,
                    col_index as int,
                ) == Err::<Seq<u8>, _>(e),
            },
    {
        if col_index >= self.values.len() {
            return Err(CpkReaderError::NoFileName);
        }
        match self.values[col_index] {
            RowValue::String(ofs) => match string_pool.get_string(ofs) {
                Some(s) => Ok(s),
                None => Err(CpkReaderError::NoFileName),
            },
            RowValue::Nil => match column.get_default_value() {
                Some(RowValue::String(ofs)) => match string_pool.get_string(ofs) {
                    Some(s) => Ok(s),
                    None => Err(CpkReaderError::NoFileName),
                },
                _ => Err(CpkReaderError::NoFileName),
            },
            _ => Err(CpkReaderError::WrongRowValueType),
        }
    }

    /// The directory cell, with the column default as fallback.
    pub fn cpk_get_directory_name(
        &self,
        column: &Column,
        string_pool: &StringPool,
        col_index: usize,
    ) -> (r: Result<Vec<u8>, CpkReaderError>)
        ensures
            match r {
                Ok(s) => spec_cpk_string_may_default(
                    self.values@,
                    *column,
                    string_pool.pool@,
                    col_index as int,
                ) == Ok::<_, CpkReaderError>(s@),
                Err(e) => spec_cpk_string_may_default(
                    self.values@,
                    *column,
                    string_pool.pool@,
                    col_index as int,
                ) == Err::<Seq<u8>, _>(e),
            },
    {
        self.cpk_get_string_may_default(column, string_pool, col_index)
    }

    /// The user-string cell, with the column default as fallback.
    pub fn cpk_get_user_string(
        &self,
        column: &Column,
        string_pool: &StringPool,
        col_index: usize,
    ) -> (r: Result<Vec<u8>, CpkReaderError>)
        ensures
            match r {
                Ok(s) => spec_cpk_string_may_default(
                    self.values@,
                    *column,
                    string_pool.pool@,
                    col_index as int,
                ) == Ok::<_, CpkReaderError>(s@),
                Err(e) => spec_cpk_string_may_default(
                    self.values@,
                    *column,
                    string_pool.pool@,
                    col_index as int,
                ) == Err::<Seq<u8>, _>(e),
            },
    {
        self.cpk_get_string_may_default(column, string_pool, col_index)
    }
}
/// Spec-level image of one catalog record.
pub ghost struct SpecFile {
    pub directory: Seq<u8>,
    pub file_name: Seq<u8>,
    pub file_offset: u64,
    pub file_size: u32,
    pub extract_size: u32,
    pub user_string: Seq<u8>,
}

/// The spec-level image of a `CpkFile`.
pub open spec fn spec_file_view(f: CpkFile) -> SpecFile {
    SpecFile {
        directory: f.directory@,
        file_name: f.file_name@,
        file_offset: f.file_offset,
        file_size: f.file_size,
        extract_size: f.extract_size,
        user_string: f.user_string@,
    }
}

/// One TOC row as a catalog record: directory and user string fall back
/// to their column defaults, the other four cells must be stored in the
/// row.  Fields are read in this order and the first failure wins.
pub open spec fn spec_row_to_file(
    cols: Seq<Column>,
    pool: Seq<u8>,
    idx: TocTableIndices,
    row: Seq<RowValue>,
) -> Result<SpecFile, CpkReaderError> {
    if !(idx.dir_name < cols.len()) {
        Err(CpkReaderError::NoFileName)
    } else {
        match spec_cpk_string_may_default(row, cols[idx.dir_name as int], pool, idx.dir_name as int) {
            Err(e) => Err(e),
            Ok(directory) => match spec_cpk_file_name(row, pool, idx.file_name as int) {
                Err(e) => Err(e),
                Ok(file_name) => match spec_cpk_u64(row, idx.file_offset as int) {
                    Err(e) => Err(e),
                    Ok(file_offset) => match (if idx.file_size == usize::MAX {
                        Err(CpkReaderError::NoFileSize)
                    } else {
                        spec_cpk_u32(row, idx.file_size as int)
                    }) {
                        Err(e) => Err(e),
                        Ok(file_size) => match (if idx.extract_size == usize::MAX {
                            Err(CpkReaderError::NoExtractSize)
                        } else {
                            spec_cpk_u32(row, idx.extract_size as int)
                        }) {
                            Err(e) => Err(e),
                            Ok(extract_size) => {
                                if !(idx.user_string < cols.len()) {
                                    Err(CpkReaderError::NoFileName)
                                } else {
                                    match spec_cpk_string_may_default(
                                        row,
                                        cols[idx.user_string as int],
                                        pool,
                                        idx.user_string as int,
                                    ) {
                                        Err(e) => Err(e),
                                        Ok(user_string) => Ok(
                                            SpecFile {
                                                directory,
                                                file_name,
                                                file_offset,
                                                file_size,
                                                extract_size,
                                                user_string,
                                            },
                                        ),
                                    }
                                }
                            },
                        },
                    },
                },
            },
        }
    }
}

/// The catalog records of the TOC rows from `i` on.
pub open spec fn spec_files_from(
    rows: Seq<Seq<RowValue>>,
    cols: Seq<Column>,
    pool: Seq<u8>,
    idx: TocTableIndices,
    i: int,
) -> Result<Seq<SpecFile>, CpkReaderError>
    decreases rows.len() - i,
{
    if i < 0 || i >= rows.len() {
        Ok(Seq::empty())
    } else {
        match spec_row_to_file(cols, pool, idx, rows[i]) {
            Err(e) => Err(e),
            Ok(f) => match spec_files_from(rows, cols, pool, idx, i + 1) {
                Err(e) => Err(e),
                Ok(rest) => Ok(seq![f] + rest),
            },
        }
    }
}

/// The whole catalog of an archive image, and the content-region base
/// after the rebase rule: the framed header table's first row names the
/// TOC and content offsets; the framed table at the TOC offset lists the
/// files; a TOC sitting below the content region rebases the content
/// offset onto itself.
pub open spec fn spec_get_files(data: Seq<u8>) -> Result<(Seq<SpecFile>, u64), CpkReaderError> {
    match spec_table_container(data, 0) {
        Err(e) => Err(e),
        Ok(tbl) => match spec_high_table(tbl) {
            Err(e) => Err(e),
            Ok((h, cols, pool, rows)) => {
                let row0 = if rows.len() > 0 {
                    rows[0]
                } else {
                    Seq::empty()
                };
                let scanned = spec_scan_header(cols, row0, pool, 0, spec_unset(), spec_unset());
                if scanned.0 == spec_unset() {
                    Err(CpkReaderError::MissingTocOffset)
                } else if scanned.1 == spec_unset() {
                    Err(CpkReaderError::MissingContentOffset)
                } else {
                    let toc = scanned.0;
                    let content = if toc < scanned.1 {
                        toc
                    } else {
                        scanned.1
                    };
                    match spec_table_container(data, toc as int) {
                        Err(e) => Err(e),
                        Ok(toc_tbl) => match spec_high_table(toc_tbl) {
                            Err(e) => Err(e),
                            Ok((h2, cols2, pool2, rows2)) => {
                                let idx = spec_scan_indices(cols2, pool2, 0, spec_indices_init());
                                match spec_files_from(rows2, cols2, pool2, idx, 0) {
                                    Err(e) => Err(e),
                                    Ok(files) => Ok((files, content)),
                                }
                            },
                        },
                    }
                }
            },
        },
    }
}

/// Whether a payload starts with the `CRILAYLA` magic.
pub open spec fn spec_is_compressed(s: Seq<u8>) -> bool {
    s.len() >= 8 && spec_le_u64(s, 0) == spec_layla_magic()
}

/// The payload of one record as read from the content region, after any
/// per-file decryption.
pub open spec fn spec_extract_payload(
    data: Seq<u8>,
    content_ofs: u64,
    p5r: bool,
    file: CpkFile,
) -> Seq<u8> {
    let raw = data.subrange(
        content_ofs + file.file_offset,
        content_ofs + file.file_offset + file.file_size,
    );
    if p5r && file.user_string@ == spec_encrypt_sentinel() {
        spec_p5r_decrypt(raw)
    } else {
        raw
    }
}

/// Extraction of one record: the payload sliced from the content region,
/// decrypted for marked files of a P5R reader, and inflated when it
/// carries the CRILAYLA magic.  Extraction before a catalog is refused;
/// a payload reaching past the archive is `Truncated`; a compressed
/// payload whose image has no decoded value (or cannot be addressed on
/// this machine) is `DecoderCorruption`.
pub open spec fn spec_extract(data: Seq<u8>, content_ofs: u64, p5r: bool, file: CpkFile) -> Result<
    Seq<u8>,
    CpkReaderError,
> {
    if content_ofs == spec_unset() {
        Err(CpkReaderError::GetFilesNotCalled)
    } else if content_ofs + file.file_offset + file.file_size > data.len() {
        Err(CpkReaderError::Truncated)
    } else {
        let dec = spec_extract_payload(data, content_ofs, p5r, file);
        if spec_is_compressed(dec) {
            if dec.len() < 16 {
                Err(CpkReaderError::DecoderCorruption)
            } else if 0x100 + spec_le_u32(dec, 8) + 262143 > usize::MAX {
                Err(CpkReaderError::DecoderCorruption)
            } else {
                match spec_decompress(dec) {
                    Some(v) => Ok(v),
                    None => Err(CpkReaderError::DecoderCorruption),
                }
            }
        } else {
            Ok(dec)
        }
    }
}

/// Random-access reader over an in-memory CPK archive image.
#[derive(Debug)]
pub struct CpkReader {
    /// The whole archive.
    pub data: Vec<u8>,
    /// Content-region base, cached by `get_files`; the unset sentinel
    /// until then.
    pub content_ofs: u64,
    /// The parsed TOC table, cached by `get_files`.
    pub toc_table: Option<HighTable>,
    /// Per-file decryption policy.
    pub decryption: Option<P5RDecryptor>,
    /// Arena accounting for decompressor output buffers.
    pub free_list: FreeList,
}

impl CpkReader {
    /// The free list is intact and its lock released.
    pub open spec fn wf(self) -> bool {
        self.free_list.wf() && !self.free_list.lock
    }

    /// A reader without per-file decryption.
    pub fn new(data: Vec<u8>) -> (r: CpkReader)
        ensures
            r.wf(),
            r.data@ == data@,
            r.content_ofs == spec_unset(),
            r.decryption is None,
    {
        Self::new_inner(data, None)
    }

    /// A reader applying the Persona 5 Royal per-file scheme to marked
    /// files.
    pub fn new_p5r(data: Vec<u8>) -> (r: CpkReader)
        ensures
            r.wf(),
            r.data@ == data@,
            r.content_ofs == spec_unset(),
            r.decryption is Some,
    {
        Self::new_inner(data, Some(P5RDecryptor))
    }

    fn new_inner(data: Vec<u8>, decryption: Option<P5RDecryptor>) -> (r: CpkReader)
        ensures
            r.wf(),
            r.data@ == data@,
            r.content_ofs == spec_unset(),
            r.decryption == decryption,
    {
        CpkReader {
            data,
            content_ofs: 0xFFFFFFFFFFFFFFFF,
            toc_table: None,
            decryption,
            free_list: FreeList::new(),
        }
    }

    /// Build the catalog: every TOC row as a `CpkFile`, in row order, and
    /// cache the content-region base for later extraction.  On any error
    /// the reader refuses subsequent extraction.
    #[verifier::spinoff_prover]
    #[verifier::loop_isolation(false)]
    #[verifier::rlimit(60)]
    pub fn get_files(&mut self) -> (r: Result<Vec<CpkFile>, CpkReaderError>)
        requires
            old(self).wf(),
        ensures
            final(self).wf(),
            final(self).data@ == old(self).data@,
            final(self).decryption == old(self).decryption,
            match r {
                Ok(files) => {
                    &&& spec_get_files(old(self).data@) matches Ok(res)
                    &&& files@.map_values(|f: CpkFile| spec_file_view(f)) == spec_get_files(
                        old(self).data@,
                    )->Ok_0.0
                    &&& final(self).content_ofs == spec_get_files(old(self).data@)->Ok_0.1
                },
                Err(e) => {
                    &&& spec_get_files(old(self).data@) == Err::<(Seq<SpecFile>, u64), _>(e)
                    &&& final(self).content_ofs == spec_unset()
                },
            },
    {
        self.content_ofs = 0xFFFFFFFFFFFFFFFF;
        self.toc_table = None;
        let dlen = self.data.len();
        // Read the framed header table and find the two offsets.
        let tbl = match TableContainer::new(&self.data, 0) {
            Ok(t) => t,
            Err(e) => {
                return Err(e);
            },
        };
        let cpk_table = match HighTable::new(tbl) {
            Ok(t) => t,
            Err(e) => {
                return Err(e);
            },
        };
        let ghost cols_g = cpk_table.columns@;
        let ghost pool_g = cpk_table.strings.pool@;
        let ghost row0_g: Seq<RowValue> = if cpk_table.rows@.len() > 0 {
            cpk_table.rows@[0].values@
        } else {
            Seq::empty()
        };
        proof {
            assert(spec_rows_view(cpk_table.rows@) == spec_high_table(cpk_table.alloc@)->Ok_0.3);
            if cpk_table.rows@.len() > 0 {
                assert(spec_rows_view(cpk_table.rows@)[0] == cpk_table.rows@[0].values@);
            }
        }
        let row0_len: usize = if cpk_table.rows.len() > 0 {
            cpk_table.rows[0].values.len()
        } else {
            0
        };
        let mut toc_offset: u64 = 0xFFFFFFFFFFFFFFFF;
        let mut content: u64 = 0xFFFFFFFFFFFFFFFF;
        let ncols = cpk_table.columns.len();
        let mut i: usize = 0;
        while i < ncols && i < row0_len
            invariant
                i <= ncols,
                spec_scan_header(cols_g, row0_g, pool_g, 0, spec_unset(), spec_unset())
                    == spec_scan_header(cols_g, row0_g, pool_g, i as int, toc_offset, content),
            decreases ncols - i,
        {
            if toc_offset != 0xFFFFFFFFFFFFFFFF && content != 0xFFFFFFFFFFFFFFFF {
                break ;
            }
            let c = &cpk_table.columns[i];
            let ghost toc0 = toc_offset;
            let ghost content0 = content;
            if c.flag & 0x10 != 0 && c.flag & 0x40 != 0 {
                match cpk_table.rows[0].values[i] {
                    RowValue::UInt64(v) => {
                        match cpk_table.strings.get_string(c.get_offset()) {
                            Some(s) => {
                                if is_name_toc_offset(&s) {
                                    toc_offset = v;
                                } else if is_name_content_offset(&s) {
                                    content = v;
                                }
                            },
                            None => {},
                        }
                    },
                    _ => {},
                }
            }
            i = i + 1;
            proof {
                assert(spec_scan_header(cols_g, row0_g, pool_g, i - 1, toc0, content0)
                    == spec_scan_header(cols_g, row0_g, pool_g, i as int, toc_offset, content));
            }
        }
        proof {
            assert(spec_scan_header(cols_g, row0_g, pool_g, i as int, toc_offset, content) == (
            toc_offset, content));
        }
        if toc_offset == 0xFFFFFFFFFFFFFFFF {
            return Err(CpkReaderError::MissingTocOffset);
        }
        if content == 0xFFFFFFFFFFFFFFFF {
            return Err(CpkReaderError::MissingContentOffset);
        }
        // Older archives store file offsets relative to the TOC itself.
        if toc_offset < content {
            content = toc_offset;
        }
        // Read and parse the framed TOC table.
        if toc_offset > (usize::MAX as u64) {
            proof {
                assert(spec_table_container(self.data@, toc_offset as int) == Err::<
                    Seq<u8>,
                    CpkReaderError,
                >(CpkReaderError::Truncated));
            }
            return Err(CpkReaderError::Truncated);
        }
        let toc_bytes = match TableContainer::new(&self.data, toc_offset as usize) {
            Ok(t) => t,
            Err(e) => {
                return Err(e);
            },
        };
        let toc_table = match HighTable::new(toc_bytes) {
            Ok(t) => t,
            Err(e) => {
                return Err(e);
            },
        };
        let toc_indices = TocTableIndices::new(toc_table.get_strings(), toc_table.get_columns());
        let ghost cols2 = toc_table.columns@;
        let ghost pool2 = toc_table.strings.pool@;
        let ghost rows2 = spec_rows_view(toc_table.rows@);
        let nrows = toc_table.rows.len();
        let mut out: Vec<CpkFile> = Vec::new();
        proof {
            let full = spec_files_from(rows2, cols2, pool2, toc_indices, 0);
            if full is Ok {
                assert(out@.map_values(|f: CpkFile| spec_file_view(f)) + full->Ok_0 =~= full
                    ->Ok_0);
            }
        }
        let mut fi: usize = 0;
        while fi < nrows
            invariant
                fi <= nrows,
                out@.len() == fi,
                spec_files_from(rows2, cols2, pool2, toc_indices, 0) == (match spec_files_from(
                    rows2,
                    cols2,
                    pool2,
                    toc_indices,
                    fi as int,
                ) {
                    Ok(rest) => Ok::<_, CpkReaderError>(
                        out@.map_values(|f: CpkFile| spec_file_view(f)) + rest,
                    ),
                    Err(e) => Err(e),
                }),
            decreases nrows - fi,
        {
            let ghost out0 = out@;
            let row = &toc_table.rows[fi];
            proof {
                assert(rows2[fi as int] == toc_table.rows@[fi as int].values@);
            }
            if toc_indices.dir_name >= toc_table.columns.len() {
                return Err(CpkReaderError::NoFileName);
            }
            let directory = match row.cpk_get_directory_name(
                &toc_table.columns[toc_indices.dir_name],
                &toc_table.strings,
                toc_indices.dir_name,
            ) {
                Ok(v) => v,
                Err(e) => {
                    return Err(e);
                },
            };
            let file_name = match row.cpk_get_file_name(&toc_table.strings, toc_indices.file_name) {
                Ok(v) => v,
                Err(e) => {
                    return Err(e);
                },
            };
            let file_offset = match row.cpk_get_file_offset(toc_indices.file_offset) {
                Ok(v) => v,
                Err(e) => {
                    return Err(e);
                },
            };
            let file_size = match row.cpk_get_file_size(toc_indices.file_size) {
                Ok(v) => v,
                Err(e) => {
                    return Err(e);
                },
            };
            let extract_size = match row.cpk_get_extract_size(toc_indices.extract_size) {
                Ok(v) => v,
                Err(e) => {
                    return Err(e);
                },
            };
            if toc_indices.user_string >= toc_table.columns.len() {
                return Err(CpkReaderError::NoFileName);
            }
            let user_string = match row.cpk_get_user_string(
                &toc_table.columns[toc_indices.user_string],
                &toc_table.strings,
                toc_indices.user_string,
            ) {
                Ok(v) => v,
                Err(e) => {
                    return Err(e);
                },
            };
            out.push(
                CpkFile::new(directory, file_name, file_offset, file_size, extract_size, user_string),
            );
            fi = fi + 1;
            proof {
                let pushed = spec_file_view(out@[fi - 1]);
                assert(spec_row_to_file(cols2, pool2, toc_indices, rows2[fi - 1]) == Ok::<
                    SpecFile,
                    CpkReaderError,
                >(pushed));
                let next = spec_files_from(rows2, cols2, pool2, toc_indices, fi as int);
                if next is Ok {
                    let rest = next->Ok_0;
                    assert(out@.map_values(|f: CpkFile| spec_file_view(f)) =~= out0.map_values(
                        |f: CpkFile| spec_file_view(f),
                    ) + seq![pushed]);
                    assert(out0.map_values(|f: CpkFile| spec_file_view(f)) + (seq![pushed] + rest)
                        =~= out@.map_values(|f: CpkFile| spec_file_view(f)) + rest);
                }
            }
        }
        self.content_ofs = content;
        self.toc_table = Some(toc_table);
        Ok(out)
    }

    /// Extract one catalog record to a fresh buffer.
    #[verifier::spinoff_prover]
    #[verifier::loop_isolation(false)]
    #[verifier::rlimit(90)]
    pub fn extract_file(&mut self, file: &CpkFile) -> (r: Result<Vec<u8>, CpkReaderError>)
        requires
            old(self).wf(),
        ensures
            final(self).wf(),
            final(self).data@ == old(self).data@,
            final(self).content_ofs == old(self).content_ofs,
            final(self).decryption == old(self).decryption,
            match r {
                Ok(v) => spec_extract(
                    old(self).data@,
                    old(self).content_ofs,
                    old(self).decryption is Some,
                    *file,
                ) == Ok::<_, CpkReaderError>(v@),
                Err(e) => spec_extract(
                    old(self).data@,
                    old(self).content_ofs,
                    old(self).decryption is Some,
                    *file,
                ) == Err::<Seq<u8>, _>(e),
            },
    {
        if self.content_ofs == 0xFFFFFFFFFFFFFFFF {
            return Err(CpkReaderError::GetFilesNotCalled);
        }
        let dlen = self.data.len();
        let total: u128 = (self.content_ofs as u128) + (file.file_offset() as u128) + (
        file.file_size() as u128);
        if total > (dlen as u128) {
            return Err(CpkReaderError::Truncated);
        }
        let start = (self.content_ofs + file.file_offset()) as usize;
        let size = file.file_size() as usize;
        let mut raw: Vec<u8> = Vec::new();
        let mut i: usize = 0;
        while i < size
            invariant
                i <= size,
                start + size <= self.data@.len(),
                self.data@ == old(self).data@,
                raw@ == self.data@.subrange(start as int, start + i),
            decreases size - i,
        {
            let b = self.data[start + i];
            raw.push(b);
            proof {
                assert(raw@ =~= self.data@.subrange(start as int, start + i + 1));
            }
            i = i + 1;
        }
        if self.decryption.is_some() && P5RDecryptor::is_encrypted(file) {
            P5RDecryptor::decrypt_in_place(&mut raw);
        }
        proof {
            assert(raw@ == spec_extract_payload(
                self.data@,
                self.content_ofs,
                self.decryption is Some,
                *file,
            ));
        }
        if LaylaDecompressor::is_compressed(&raw) {
            if raw.len() < 16 {
                return Err(CpkReaderError::DecoderCorruption);
            }
            let usz = crate::bytes::le_u32(&raw, 8);
            if (usz as u64) > (usize::MAX as u64) - 0x100 - 262143 {
                return Err(CpkReaderError::DecoderCorruption);
            }
            match LaylaDecompressor::decompress(&raw, &mut self.free_list) {
                Ok(node) => {
                    proof {
                        crate::layla::lemma_decompress_shape(raw@);
                    }
                    self.free_list.deallocate(&node);
                    Ok(node.to_vec())
                },
                Err(_) => Err(CpkReaderError::DecoderCorruption),
            }
        } else {
            Ok(raw)
        }
    }
}

/// Every successful extraction reads entirely inside the archive image:
/// the record's payload window ends at or before the archive's end.
pub proof fn lemma_extract_within_archive(
    data: Seq<u8>,
    content_ofs: u64,
    p5r: bool,
    file: CpkFile,
)
    ensures
        spec_extract(data, content_ofs, p5r, file) is Ok ==> content_ofs + file.file_offset
            + file.file_size <= data.len(),
{
}

/// The length of every successful extraction: the declared uncompressed
/// size plus the verbatim prefix for CRILAYLA payloads, the stored size
/// otherwise.
pub proof fn lemma_extract_len(data: Seq<u8>, content_ofs: u64, p5r: bool, file: CpkFile)
    ensures
        match spec_extract(data, content_ofs, p5r, file) {
            Ok(v) => v.len() == ({
                let dec = spec_extract_payload(data, content_ofs, p5r, file);
                if spec_is_compressed(dec) {
                    0x100 + spec_le_u32(dec, 8)
                } else {
                    file.file_size as int
                }
            }),
            Err(e) => true,
        },
{
    if spec_extract(data, content_ofs, p5r, file) is Ok {
        let dec = spec_extract_payload(data, content_ofs, p5r, file);
        if spec_is_compressed(dec) {
            crate::layla::lemma_decompress_shape(dec);
        }
    }
}

/// A record whose `extract_size` agrees with its payload extracts to
/// exactly `extract_size` bytes.
pub proof fn lemma_extract_size_matches_record(
    data: Seq<u8>,
    content_ofs: u64,
    p5r: bool,
    file: CpkFile,
)
    requires
        ({
            let dec = spec_extract_payload(data, content_ofs, p5r, file);
            if spec_is_compressed(dec) {
                file.extract_size == 0x100 + spec_le_u32(dec, 8)
            } else {
                file.extract_size == file.file_size
            }
        }),
    ensures
        match spec_extract(data, content_ofs, p5r, file) {
            Ok(v) => v.len() == file.extract_size,
            Err(e) => true,
        },
{
    lemma_extract_len(data, content_ofs, p5r, file);
}

} // verus!
