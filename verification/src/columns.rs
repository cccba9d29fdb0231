//! Column descriptors of a `@UTF` table.
//!
//! Each descriptor is a flag byte (low nibble: type tag; high nibble:
//! has-name, has-default, per-row-storage bits) and a big-endian u32
//! naming offset into the string pool.  A descriptor with the default bit
//! carries a constant of its type inline, read in place.

use vstd::prelude::*;

use crate::bytes::be_u32;
use crate::bytes::spec_be_u32;
use crate::errors::CpkReaderError;
use crate::header::TableHeader;
use crate::rows::read_cell;
use crate::rows::spec_cell_size;
use crate::rows::spec_read_cell;
use crate::rows::RowValue;

verus! {

/// Cell type of a column, from the low nibble of its flag byte.
#[derive(Debug, Clone, Copy, PartialEq, Eq, Structural)]
pub enum ColumnType {
    Byte,
    SByte,
    UInt16,
    Int16,
    UInt32,
    Int32,
    UInt64,
    Int64,
    Single,
    Double,
    String,
    Data,
    Guid,
}

/// The type named by tag `t`, if `t` is a known tag.
pub open spec fn spec_type_of_tag(t: u8) -> Option<ColumnType> {
    if t == 0 {
        Some(ColumnType::Byte)
    } else if t == 1 {
        Some(ColumnType::SByte)
    } else if t == 2 {
        Some(ColumnType::UInt16)
    } else if t == 3 {
        Some(ColumnType::Int16)
    } else if t == 4 {
        Some(ColumnType::UInt32)
    } else if t == 5 {
        Some(ColumnType::Int32)
    } else if t == 6 {
        Some(ColumnType::UInt64)
    } else if t == 7 {
        Some(ColumnType::Int64)
    } else if t == 8 {
        Some(ColumnType::Single)
    } else if t == 9 {
        Some(ColumnType::Double)
    } else if t == 10 {
        Some(ColumnType::String)
    } else if t == 11 {
        Some(ColumnType::Data)
    } else if t == 12 {
        Some(ColumnType::Guid)
    } else {
        None
    }
}

impl ColumnType {
    /// The type named by tag `t`, or nothing above the last known tag.
    pub fn from_tag(t: u8) -> (r: Option<ColumnType>)
        ensures
            r == spec_type_of_tag(t),
    {
        match t {
            0 => Some(ColumnType::Byte),
            1 => Some(ColumnType::SByte),
            2 => Some(ColumnType::UInt16),
            3 => Some(ColumnType::Int16),
            4 => Some(ColumnType::UInt32),
            5 => Some(ColumnType::Int32),
            6 => Some(ColumnType::UInt64),
            7 => Some(ColumnType::Int64),
            8 => Some(ColumnType::Single),
            9 => Some(ColumnType::Double),
            10 => Some(ColumnType::String),
            11 => Some(ColumnType::Data),
            12 => Some(ColumnType::Guid),
            _ => None,
        }
    }

    /// Bytes a cell of this type occupies.
    pub fn get_size(&self) -> (r: u32)
        ensures
            r == spec_cell_size(*self),
    {
        match self {
            ColumnType::Byte | ColumnType::SByte => 1,
            ColumnType::UInt16 | ColumnType::Int16 => 2,
            ColumnType::UInt32 | ColumnType::Int32 | ColumnType::Single | ColumnType::String => 4,
            ColumnType::UInt64 | ColumnType::Int64 | ColumnType::Double | ColumnType::Data => 8,
            ColumnType::Guid => 16,
        }
    }
}

/// The high-nibble flag bits of a column descriptor.
#[derive(Debug, Clone, Copy, PartialEq, Eq, Structural)]
pub struct ColumnFlag {
    pub bits: u8,
}

impl ColumnFlag {
    /// The column has a name in the string pool.
    pub fn has_name(&self) -> (r: bool)
        ensures
            r == (self.bits & 0x10 != 0),
    {
        self.bits & 0x10 != 0
    }

    /// The column carries an inline default value.
    pub fn has_default_value(&self) -> (r: bool)
        ensures
            r == (self.bits & 0x20 != 0),
    {
        self.bits & 0x20 != 0
    }

    /// The column stores one cell in every row.
    pub fn has_row_storage(&self) -> (r: bool)
        ensures
            r == (self.bits & 0x40 != 0),
    {
        self.bits & 0x40 != 0
    }
}

/// The raw flag byte of a column descriptor.
#[derive(Debug, Clone, Copy, PartialEq, Eq, Structural)]
pub struct ColumnValue(pub u8);

impl ColumnValue {
    /// The high-nibble flag bits.
    pub fn get_flags(&self) -> (r: ColumnFlag)
        ensures
            r.bits == self.0 & 0xf0,
    {
        ColumnFlag { bits: self.0 & 0xf0 }
    }

    /// The type named by the low nibble.
    pub fn get_type(&self) -> (r: Option<ColumnType>)
        ensures
            r == spec_type_of_tag(self.0 & 0x0f),
    {
        ColumnType::from_tag(self.0 & 0x0f)
    }
}

/// One parsed column descriptor.
#[derive(Debug, Clone, Copy, PartialEq, Eq, Structural)]
pub struct Column {
    /// The raw flag byte.
    pub flag: u8,
    /// The cell type from the flag's low nibble.
    pub ctype: ColumnType,
    /// Offset of the column's name in the string pool.
    pub string_offset: u32,
    /// The inline constant of columns with the default bit.
    pub default_value: Option<RowValue>,
}

impl Column {
    /// The column stores one cell in every row.
    pub open spec fn has_row_storage(self) -> bool {
        self.flag & 0x40 != 0
    }

    /// The column has a name in the string pool.
    pub open spec fn has_name(self) -> bool {
        self.flag & 0x10 != 0
    }

    /// Whether the column stores one cell in every row.
    pub fn row_stored(&self) -> (r: bool)
        ensures
            r == self.has_row_storage(),
    {
        self.flag & 0x40 != 0
    }

    /// The raw flag byte.
    pub fn get_value(&self) -> (r: ColumnValue)
        ensures
            r.0 == self.flag,
    {
        ColumnValue(self.flag)
    }

    /// Offset of the column's name in the string pool.
    pub fn get_offset(&self) -> (r: u32)
        ensures
            r == self.string_offset,
    {
        self.string_offset
    }

    /// The inline constant of columns with the default bit.
    pub fn get_default_value(&self) -> (r: Option<RowValue>)
        ensures
            r == self.default_value,
    {
        self.default_value
    }
}

/// One column descriptor at `pos`, with the position after it (and after
/// its inline default, if any).
pub open spec fn spec_parse_column(s: Seq<u8>, pos: int) -> Result<(Column, int), CpkReaderError> {
    if pos + 5 > s.len() {
        Err(CpkReaderError::Truncated)
    } else {
        let flag = s[pos];
        match spec_type_of_tag(flag & 0x0f) {
            None => Err(CpkReaderError::UnknownColumnType),
            Some(t) => {
                let so = spec_be_u32(s, pos + 1) as u32;
                if flag & 0x20 != 0 {
                    let size = spec_cell_size(t);
                    if pos + 5 + size > s.len() {
                        Err(CpkReaderError::Truncated)
                    } else {
                        Ok(
                            (
                                Column {
                                    flag,
                                    ctype: t,
                                    string_offset: so,
                                    default_value: Some(spec_read_cell(s, pos + 5, t)),
                                },
                                pos + 5 + size,
                            ),
                        )
                    }
                } else {
                    Ok((Column { flag, ctype: t, string_offset: so, default_value: None }, pos + 5))
                }
            },
        }
    }
}

/// `n` column descriptors back to back from `pos`.
pub open spec fn spec_parse_columns(s: Seq<u8>, pos: int, n: int) -> Result<
    Seq<Column>,
    CpkReaderError,
>
    decreases n,
{
    if n <= 0 {
        Ok(Seq::empty())
    } else {
        match spec_parse_column(s, pos) {
            Err(e) => Err(e),
            Ok((col, end)) => match spec_parse_columns(s, end, n - 1) {
                Err(e) => Err(e),
                Ok(rest) => Ok(seq![col] + rest),
            },
        }
    }
}

/// The column region of a whole table image: `column_count` descriptors
/// from byte 0x20.
pub open spec fn spec_table_columns(s: Seq<u8>, header: TableHeader) -> Result<
    Seq<Column>,
    CpkReaderError,
> {
    spec_parse_columns(s, 0x20, header.column_count as int)
}

fn parse_column(data: &Vec<u8>, pos: usize) -> (r: Result<(Column, usize), CpkReaderError>)
    ensures
        match r {
            Ok((col, end)) => spec_parse_column(data@, pos as int) == Ok::<_, CpkReaderError>(
                (col, end as int),
            ) && end <= data@.len(),
            Err(e) => spec_parse_column(data@, pos as int) == Err::<(Column, int), _>(e),
        },
{
    if pos > data.len() || 5 > data.len() - pos {
        return Err(CpkReaderError::Truncated);
    }
    let flag = data[pos];
    let t = match ColumnType::from_tag(flag & 0x0f) {
        Some(t) => t,
        None => {
            return Err(CpkReaderError::UnknownColumnType);
        },
    };
    let so = be_u32(data, pos + 1);
    if flag & 0x20 != 0 {
        let size = t.get_size() as usize;
        if size > data.len() - (pos + 5) {
            return Err(CpkReaderError::Truncated);
        }
        let dv = read_cell(data, pos + 5, t);
        Ok(
            (
                Column { flag, ctype: t, string_offset: so, default_value: Some(dv) },
                pos + 5 + size,
            ),
        )
    } else {
        Ok((Column { flag, ctype: t, string_offset: so, default_value: None }, pos + 5))
    }
}

impl Column {
    /// Decode the column stream at byte 0x20 of a table image: exactly
    /// `column_count` descriptors, each with its inline default when the
    /// default bit is set.  `Truncated` when the stream ends early,
    /// `UnknownColumnType` on a tag above the last known one.
    #[verifier::loop_isolation(false)]
    pub fn new_list(data: &Vec<u8>, header: &TableHeader) -> (r: Result<
        Vec<Column>,
        CpkReaderError,
    >)
        ensures
            match r {
                Ok(cols) => spec_table_columns(data@, *header) == Ok::<_, CpkReaderError>(cols@),
                Err(e) => spec_table_columns(data@, *header) == Err::<Seq<Column>, _>(e),
            },
    {
        let n = header.column_count as usize;
        let mut cols: Vec<Column> = Vec::new();
        let mut pos: usize = 0x20;
        let mut i: usize = 0;
        proof {
            let full = spec_parse_columns(data@, 0x20, n as int);
            if full is Ok {
                assert(cols@ + full->Ok_0 =~= full->Ok_0);
            }
        }
        while i < n
            invariant
                i <= n,
                cols@.len() == i,
                spec_parse_columns(data@, 0x20, n as int) == (match spec_parse_columns(
                    data@,
                    pos as int,
                    (n - i) as int,
                ) {
                    Ok(rest) => Ok::<_, CpkReaderError>(cols@ + rest),
                    Err(e) => Err(e),
                }),
            decreases n - i,
        {
            let ghost cols0 = cols@;
            let (col, end) = match parse_column(data, pos) {
                Ok(v) => v,
                Err(e) => {
                    proof {
                        assert(spec_parse_columns(data@, pos as int, (n - i) as int) == Err::<
                            Seq<Column>,
                            CpkReaderError,
                        >(e));
                    }
                    return Err(e);
                },
            };
            cols.push(col);
            pos = end;
            i = i + 1;
            proof {
                let next = spec_parse_columns(data@, pos as int, (n - i) as int);
                if next is Ok {
                    let rest = next->Ok_0;
                    assert(cols0 + (seq![cols@[i - 1]] + rest) =~= cols@ + rest);
                }
            }
        }
        Ok(cols)
    }
}

} // verus!
