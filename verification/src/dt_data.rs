use vstd::prelude::*;

use crate::row_data::{row_size, Position, RowData};

verus! {

/// The kind of a DDL event.
#[derive(Clone, Copy, Debug, PartialEq, Eq, Structural)]
pub enum DdlType {
    Unknown,
    CreateDatabase,
    CreateTable,
}

/// A parsed structure statement, carried as its rendered SQL text. The
/// per-dialect fetchers that produce these are outside collaborators; the
/// pipeline depends only on this value.
#[derive(Clone, Debug, PartialEq, Eq)]
pub enum StructStatement {
    MysqlCreateDatabase { statement: String },
    MysqlCreateTable { statement: String },
}

/// A schema-change event. Either the raw `query` text or a parsed
/// `statement` must be present.
#[derive(Debug)]
pub struct DdlData {
    pub schema: String,
    pub tb: String,
    pub query: String,
    pub statement: Option<StructStatement>,
    pub ddl_type: DdlType,
}

impl StructStatement {
    /// A copy of this statement, equal to the original.
    pub fn duplicate(&self) -> (r: StructStatement)
        ensures
            r == *self,
    {
        match self {
            StructStatement::MysqlCreateDatabase { statement } => {
                StructStatement::MysqlCreateDatabase { statement: statement.clone() }
            },
            StructStatement::MysqlCreateTable { statement } => {
                StructStatement::MysqlCreateTable { statement: statement.clone() }
            },
        }
    }
}

impl DdlData {
    /// The DDL invariant: raw text or a parsed statement is present.
    pub open spec fn well_formed(&self) -> bool {
        self.query@.len() > 0 || self.statement is Some
    }
}

/// One item of the transfer pipeline.
#[derive(Debug)]
pub enum DtItem {
    Row(RowData),
    Ddl(DdlData),
    Commit(Position),
    Heartbeat,
    Marker(String),
}

impl DtItem {
    /// Row and DDL payloads keep their own invariants through the queue.
    pub open spec fn well_formed(&self) -> bool {
        match self {
            DtItem::Row(r) => r.well_formed(),
            DtItem::Ddl(d) => d.well_formed(),
            _ => true,
        }
    }

    /// Byte cost of the item, as `item_size` states it.
    pub fn byte_size(&self) -> (r: u64)
        ensures
            r == item_size(*self),
    {
        match self {
            DtItem::Row(row) => row.byte_size(),
            _ => 64,
        }
    }
}

/// Byte cost of a pipeline item: rows by their images, everything else a
/// flat 64.
pub open spec fn item_size(item: DtItem) -> nat {
    match item {
        DtItem::Row(row) => row_size(row),
        _ => 64,
    }
}

} // verus!
