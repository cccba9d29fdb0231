//! Typed cells and packed rows of a `@UTF` table.
//!
//! Cells are stored big-endian.  A column with the per-row-storage flag
//! contributes one cell of its type to every row; a column without it
//! contributes the placeholder `Nil`, and readers fall back to the
//! column's default value.  Floating-point cells are carried as their raw
//! big-endian bit patterns: nothing in the archive logic interprets them.

use vstd::prelude::*;

use crate::bytes::be_u16;
use crate::bytes::be_u32;
use crate::bytes::be_u64;
use crate::bytes::spec_be_u16;
use crate::bytes::spec_be_u32;
use crate::bytes::spec_be_u64;
use crate::columns::Column;
use crate::columns::ColumnType;
use crate::errors::CpkReaderError;
use crate::header::TableHeader;

verus! {

/// An `(offset, length)` reference into the table's data pool.
#[derive(Debug, Clone, Copy, PartialEq, Eq, Structural)]
pub struct DataValue {
    pub offset: u32,
    pub length: u32,
}

impl DataValue {
    /// A zero-length reference marks an absent blob.
    pub fn is_none(&self) -> (r: bool)
        ensures
            r == (self.length == 0),
    {
        self.length == 0
    }
}

/// Four big-endian words of a GUID cell.
#[derive(Debug, Clone, Copy, PartialEq, Eq, Structural)]
pub struct GuidValue {
    pub w0: u32,
    pub w1: u32,
    pub w2: u32,
    pub w3: u32,
}

/// One typed cell.  `Single` and `Double` carry raw bit patterns; `Nil`
/// stands in for columns without per-row storage.
#[derive(Debug, Clone, Copy, PartialEq, Eq, Structural)]
pub enum RowValue {
    Byte(u8),
    SByte(i8),
    UInt16(u16),
    Int16(i16),
    UInt32(u32),
    Int32(i32),
    UInt64(u64),
    Int64(i64),
    Single(u32),
    Double(u64),
    String(u32),
    Data(DataValue),
    Guid(GuidValue),
    Nil,
}

/// Bytes one cell of type `t` occupies in the row stream.
pub open spec fn spec_cell_size(t: ColumnType) -> int {
    match t {
        ColumnType::Byte | ColumnType::SByte => 1,
        ColumnType::UInt16 | ColumnType::Int16 => 2,
        ColumnType::UInt32 | ColumnType::Int32 | ColumnType::Single | ColumnType::String => 4,
        ColumnType::UInt64 | ColumnType::Int64 | ColumnType::Double | ColumnType::Data => 8,
        ColumnType::Guid => 16,
    }
}

/// The cell of type `t` stored big-endian at `pos`.
pub open spec fn spec_read_cell(s: Seq<u8>, pos: int, t: ColumnType) -> RowValue {
    match t {
        ColumnType::Byte => RowValue::Byte(s[pos]),
        ColumnType::SByte => RowValue::SByte(s[pos] as i8),
        ColumnType::UInt16 => RowValue::UInt16(spec_be_u16(s, pos) as u16),
        ColumnType::Int16 => RowValue::Int16((spec_be_u16(s, pos) as u16) as i16),
        ColumnType::UInt32 => RowValue::UInt32(spec_be_u32(s, pos) as u32),
        ColumnType::Int32 => RowValue::Int32((spec_be_u32(s, pos) as u32) as i32),
        ColumnType::UInt64 => RowValue::UInt64(spec_be_u64(s, pos) as u64),
        ColumnType::Int64 => RowValue::Int64((spec_be_u64(s, pos) as u64) as i64),
        ColumnType::Single => RowValue::Single(spec_be_u32(s, pos) as u32),
        ColumnType::Double => RowValue::Double(spec_be_u64(s, pos) as u64),
        ColumnType::String => RowValue::String(spec_be_u32(s, pos) as u32),
        ColumnType::Data => RowValue::Data(
            DataValue {
                offset: spec_be_u32(s, pos) as u32,
                length: spec_be_u32(s, pos + 4) as u32,
            },
        ),
        ColumnType::Guid => RowValue::Guid(
            GuidValue {
                w0: spec_be_u32(s, pos) as u32,
                w1: spec_be_u32(s, pos + 4) as u32,
                w2: spec_be_u32(s, pos + 8) as u32,
                w3: spec_be_u32(s, pos + 12) as u32,
            },
        ),
    }
}

/// One row: the cell of every row-stored column at `pos` onward, `Nil`
/// elsewhere, with the position after the row.
pub open spec fn spec_parse_row(s: Seq<u8>, pos: int, cols: Seq<Column>, j: int) -> Result<
    (Seq<RowValue>, int),
    CpkReaderError,
>
    decreases cols.len() - j,
{
    if j < 0 || j >= cols.len() {
        Ok((Seq::empty(), pos))
    } else {
        let c = cols[j];
        if !c.has_row_storage() {
            match spec_parse_row(s, pos, cols, j + 1) {
                Ok((rest, end)) => Ok((seq![RowValue::Nil] + rest, end)),
                Err(e) => Err(e),
            }
        } else {
            let size = spec_cell_size(c.ctype);
            if pos + size > s.len() {
                Err(CpkReaderError::Truncated)
            } else {
                let v = spec_read_cell(s, pos, c.ctype);
                match spec_parse_row(s, pos + size, cols, j + 1) {
                    Ok((rest, end)) => Ok((seq![v] + rest, end)),
                    Err(e) => Err(e),
                }
            }
        }
    }
}

/// `n` rows read back to back from `pos`.
pub open spec fn spec_parse_rows(s: Seq<u8>, pos: int, cols: Seq<Column>, n: int) -> Result<
    Seq<Seq<RowValue>>,
    CpkReaderError,
>
    decreases n,
{
    if n <= 0 {
        Ok(Seq::empty())
    } else {
        match spec_parse_row(s, pos, cols, 0) {
            Err(e) => Err(e),
            Ok((row, end)) => match spec_parse_rows(s, end, cols, n - 1) {
                Err(e) => Err(e),
                Ok(rest) => Ok(seq![row] + rest),
            },
        }
    }
}

/// The row region of a whole table image: `row_count` rows from
/// `rows_offset`.
pub open spec fn spec_table_rows(s: Seq<u8>, header: TableHeader, cols: Seq<Column>) -> Result<
    Seq<Seq<RowValue>>,
    CpkReaderError,
> {
    spec_parse_rows(s, header.rows_offset as int, cols, header.row_count as int)
}

/// The cell of type `t` stored big-endian at `pos`.
pub fn read_cell(data: &Vec<u8>, pos: usize, t: ColumnType) -> (r: RowValue)
    requires
        pos + spec_cell_size(t) <= data.len(),
    ensures
        r == spec_read_cell(data@, pos as int, t),
{
    match t {
        ColumnType::Byte => RowValue::Byte(data[pos]),
        ColumnType::SByte => RowValue::SByte(data[pos] as i8),
        ColumnType::UInt16 => RowValue::UInt16(be_u16(data, pos)),
        ColumnType::Int16 => RowValue::Int16(be_u16(data, pos) as i16),
        ColumnType::UInt32 => RowValue::UInt32(be_u32(data, pos)),
        ColumnType::Int32 => RowValue::Int32(be_u32(data, pos) as i32),
        ColumnType::UInt64 => RowValue::UInt64(be_u64(data, pos)),
        ColumnType::Int64 => RowValue::Int64(be_u64(data, pos) as i64),
        ColumnType::Single => RowValue::Single(be_u32(data, pos)),
        ColumnType::Double => RowValue::Double(be_u64(data, pos)),
        ColumnType::String => RowValue::String(be_u32(data, pos)),
        ColumnType::Data => RowValue::Data(
            DataValue { offset: be_u32(data, pos), length: be_u32(data, pos + 4) },
        ),
        ColumnType::Guid => RowValue::Guid(
            GuidValue {
                w0: be_u32(data, pos),
                w1: be_u32(data, pos + 4),
                w2: be_u32(data, pos + 8),
                w3: be_u32(data, pos + 12),
            },
        ),
    }
}

/// One decoded row.
#[derive(Debug)]
pub struct Row {
    pub values: Vec<RowValue>,
}

impl Row {
    /// Decode one row at `pos`, mirroring `spec_parse_row`.
    #[verifier::loop_isolation(false)]
    fn parse_one(data: &Vec<u8>, pos: usize, columns: &Vec<Column>) -> (r: Result<
        (Row, usize),
        CpkReaderError,
    >)
        ensures
            match r {
                Ok((row, end)) => spec_parse_row(data@, pos as int, columns@, 0) == Ok::<
                    _,
                    CpkReaderError,
                >((row.values@, end as int)),
                Err(e) => spec_parse_row(data@, pos as int, columns@, 0) == Err::<
                    (Seq<RowValue>, int),
                    _,
                >(e),
            },
    {
        let mut values: Vec<RowValue> = Vec::new();
        let mut p: usize = pos;
        let mut j: usize = 0;
        proof {
            let full = spec_parse_row(data@, pos as int, columns@, 0);
            if full is Ok {
                assert(values@ + full->Ok_0.0 =~= full->Ok_0.0);
            }
        }
        while j < columns.len()
            invariant
                j <= columns@.len(),
                p == pos || p <= data@.len(),
                values@.len() == j,
                spec_parse_row(data@, pos as int, columns@, 0) == (match spec_parse_row(
                    data@,
                    p as int,
                    columns@,
                    j as int,
                ) {
                    Ok((rest, end)) => Ok::<_, CpkReaderError>((values@ + rest, end)),
                    Err(e) => Err(e),
                }),
            decreases columns@.len() - j,
        {
            let c = &columns[j];
            let ghost vals0 = values@;
            let ghost p0 = p;
            if !c.row_stored() {
                values.push(RowValue::Nil);
            } else {
                let size = c.ctype.get_size() as usize;
                if p > data.len() || size > data.len() - p {
                    return Err(CpkReaderError::Truncated);
                }
                let v = read_cell(data, p, c.ctype);
                values.push(v);
                p = p + size;
            }
            j = j + 1;
            proof {
                let step = spec_parse_row(data@, p0 as int, columns@, j - 1);
                let next = spec_parse_row(data@, p as int, columns@, j as int);
                if next is Ok {
                    let (rest, end) = next->Ok_0;
                    assert(vals0 + (seq![values@[j - 1]] + rest) =~= values@ + rest);
                }
            }
        }
        Ok((Row { values }, p))
    }

    /// Decode `row_count` rows from `rows_offset`, reading cells back to
    /// back and substituting `Nil` for columns without row storage.
    #[verifier::loop_isolation(false)]
    pub fn new_list(data: &Vec<u8>, header: &TableHeader, columns: &Vec<Column>) -> (r: Result<
        Vec<Row>,
        CpkReaderError,
    >)
        requires
            header.rows_offset <= usize::MAX,
        ensures
            match r {
                Ok(rows) => {
                    &&& spec_table_rows(data@, *header, columns@) matches Ok(srows)
                    &&& rows@.len() == spec_table_rows(data@, *header, columns@)->Ok_0.len()
                    &&& forall|i: int|
                        0 <= i < rows@.len() ==> rows@[i].values@ == spec_table_rows(
                            data@,
                            *header,
                            columns@,
                        )->Ok_0[i]
                },
                Err(e) => spec_table_rows(data@, *header, columns@) == Err::<
                    Seq<Seq<RowValue>>,
                    _,
                >(e),
            },
    {
        let n = header.row_count as usize;
        let mut rows: Vec<Row> = Vec::new();
        let mut i: usize = 0;
        let mut pos: usize = header.rows_offset as usize;
        proof {
            let full = spec_parse_rows(data@, header.rows_offset as int, columns@, n as int);
            if full is Ok {
                assert(spec_rows_view(rows@) + full->Ok_0 =~= full->Ok_0);
            }
        }
        while i < n
            invariant
                i <= n,
                spec_parse_rows(data@, header.rows_offset as int, columns@, n as int) == (
                match spec_parse_rows(data@, pos as int, columns@, (n - i) as int) {
                    Ok(rest) => Ok::<_, CpkReaderError>(spec_rows_view(rows@) + rest),
                    Err(e) => Err(e),
                }),
                rows@.len() == i,
                spec_rows_view(rows@).len() == i,
            decreases n - i,
        {
            let ghost rows0 = spec_rows_view(rows@);
            let (row, end) = match Self::parse_one(data, pos, columns) {
                Ok(v) => v,
                Err(e) => {
                    proof {
                        assert(spec_parse_rows(data@, pos as int, columns@, (n - i) as int)
                            == Err::<Seq<Seq<RowValue>>, CpkReaderError>(e));
                    }
                    return Err(e);
                },
            };
            rows.push(row);
            pos = end;
            i = i + 1;
            proof {
                let next = spec_parse_rows(data@, pos as int, columns@, (n - i) as int);
                if next is Ok {
                    let rest = next->Ok_0;
                    assert(spec_rows_view(rows@) =~= rows0 + seq![rows@[i - 1].values@]);
                    assert(rows0 + (seq![rows@[i - 1].values@] + rest) =~= spec_rows_view(rows@)
                        + rest);
                }
            }
        }
        Ok(rows)
    }
}

/// The spec-level image of a decoded row list.
pub open spec fn spec_rows_view(rows: Seq<Row>) -> Seq<Seq<RowValue>> {
    rows.map_values(|r: Row| r.values@)
}

} // verus!
