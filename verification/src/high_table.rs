//! A fully parsed `@UTF` table: preamble, columns, string pool and rows,
//! kept together with the table image they were read from.

use vstd::prelude::*;

use crate::columns::spec_table_columns;
use crate::columns::Column;
use crate::errors::CpkReaderError;
use crate::header::spec_table_header;
use crate::header::TableHeader;
use crate::rows::spec_rows_view;
use crate::rows::spec_table_rows;
use crate::rows::Row;
use crate::rows::RowValue;
use crate::strings::spec_table_pool;
use crate::strings::StringPool;

verus! {

/// A whole table parsed from its image: preamble, columns, pool bytes and
/// rows, in the order the regions are validated.
pub open spec fn spec_high_table(s: Seq<u8>) -> Result<
    (TableHeader, Seq<Column>, Seq<u8>, Seq<Seq<RowValue>>),
    CpkReaderError,
> {
    match spec_table_header(s) {
        None => Err(CpkReaderError::MalformedHeader),
        Some(h) => match spec_table_columns(s, h) {
            Err(e) => Err(e),
            Ok(cols) => match spec_table_pool(s, h) {
                Err(e) => Err(e),
                Ok(pool) => match spec_table_rows(s, h, cols) {
                    Err(e) => Err(e),
                    Ok(rows) => Ok((h, cols, pool, rows)),
                },
            },
        },
    }
}

/// One parsed table and the image it came from.
#[derive(Debug)]
pub struct HighTable {
    pub alloc: Vec<u8>,
    pub header: TableHeader,
    pub columns: Vec<Column>,
    pub strings: StringPool,
    pub rows: Vec<Row>,
}

impl HighTable {
    /// Everything `new` established about a parsed table.
    pub open spec fn wf(self) -> bool {
        &&& spec_high_table(self.alloc@) matches Ok(t)
        &&& self.header == spec_high_table(self.alloc@)->Ok_0.0
        &&& self.columns@ == spec_high_table(self.alloc@)->Ok_0.1
        &&& self.strings.pool@ == spec_high_table(self.alloc@)->Ok_0.2
        &&& spec_rows_view(self.rows@) == spec_high_table(self.alloc@)->Ok_0.3
    }

    /// Parse a table image: preamble, column stream, string pool, rows.
    pub fn new(alloc: Vec<u8>) -> (r: Result<HighTable, CpkReaderError>)
        ensures
            match r {
                Ok(t) => t.alloc@ == alloc@ && t.wf(),
                Err(e) => spec_high_table(alloc@) == Err::<
                    (TableHeader, Seq<Column>, Seq<u8>, Seq<Seq<RowValue>>),
                    _,
                >(e),
            },
    {
        let header = match TableHeader::new(&alloc) {
            Ok(h) => h,
            Err(e) => {
                return Err(e);
            },
        };
        let columns = match Column::new_list(&alloc, &header) {
            Ok(c) => c,
            Err(e) => {
                return Err(e);
            },
        };
        let strings = match StringPool::new(&alloc, &header) {
            Ok(s) => s,
            Err(e) => {
                return Err(e);
            },
        };
        let rows = match Row::new_list(&alloc, &header, &columns) {
            Ok(rws) => rws,
            Err(e) => {
                return Err(e);
            },
        };
        proof {
            assert(spec_rows_view(rows@) =~= spec_table_rows(alloc@, header, columns@)->Ok_0);
        }
        Ok(HighTable { alloc, header, columns, strings, rows })
    }

    pub fn get_header(&self) -> (r: &TableHeader)
        ensures
            r == &self.header,
    {
        &self.header
    }

    pub fn get_columns(&self) -> (r: &Vec<Column>)
        ensures
            r@ == self.columns@,
    {
        &self.columns
    }

    pub fn get_strings(&self) -> (r: &StringPool)
        ensures
            r == &self.strings,
    {
        &self.strings
    }

    pub fn get_rows(&self) -> (r: &Vec<Row>)
        ensures
            r@ == self.rows@,
    {
        &self.rows
    }

    pub fn get_alloc(&self) -> (r: &Vec<u8>)
        ensures
            r@ == self.alloc@,
    {
        &self.alloc
    }
}

} // verus!
