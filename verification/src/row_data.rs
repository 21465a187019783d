use vstd::prelude::*;

use crate::col_map::{sat_add, sat_add_u64, ColMap};

verus! {

/// The kind of change a row carries.
#[derive(Clone, Copy, Debug, PartialEq, Eq, Structural)]
pub enum RowType {
    Insert,
    Update,
    Delete,
}

/// A coordinate in a source replication stream: opaque bytes plus a kind,
/// or nothing (snapshot rows carry no position).
#[derive(Clone, Debug, PartialEq, Eq)]
pub enum Position {
    NoPosition,
    Coordinate { kind: u64, bytes: Vec<u8> },
}

/// One changed row. `before` and `after` are the images around the
/// change; an image that does not apply (for example `before` of an
/// insert) is the empty map.
#[derive(Debug)]
pub struct RowData {
    pub schema: String,
    pub tb: String,
    pub row_type: RowType,
    pub before: ColMap,
    pub after: ColMap,
    pub position: Position,
}

impl RowData {
    /// The row invariant: an insert has no before image and a populated
    /// after image; a delete the inverse; an update has both, over the
    /// same column set.
    pub open spec fn well_formed(&self) -> bool {
        &&& self.before.well_formed()
        &&& self.after.well_formed()
        &&& match self.row_type {
            RowType::Insert => self.before@.dom() =~= Set::<Seq<char>>::empty() && !(
            self.after@.dom() =~= Set::<Seq<char>>::empty()),
            RowType::Delete => self.after@.dom() =~= Set::<Seq<char>>::empty() && !(
            self.before@.dom() =~= Set::<Seq<char>>::empty()),
            RowType::Update => self.before@.dom() =~= self.after@.dom() && !(
            self.after@.dom() =~= Set::<Seq<char>>::empty()),
        }
    }

    /// Build an insert row from its after image.
    pub fn new_insert(schema: String, tb: String, after: ColMap, position: Position) -> (r: Result<
        RowData,
        crate::error::DtError,
    >)
        requires
            after.well_formed(),
        ensures
            match r {
                Ok(row) => {
                    &&& row.well_formed()
                    &&& row.row_type == RowType::Insert
                    &&& row.schema == schema
                    &&& row.tb == tb
                    &&& row.after@ == after@
                    &&& row.position == position
                    &&& !(after@.dom() =~= Set::<Seq<char>>::empty())
                },
                Err(e) => e.kind == crate::error::DtErrorKind::Encoding && after@.dom()
                    =~= Set::<Seq<char>>::empty(),
            },
    {
        if after.is_empty() {
            return Err(
                crate::error::DtError::for_table(
                    crate::error::DtErrorKind::Encoding,
                    schema,
                    tb,
                    String::new(),
                ),
            );
        }
        Ok(RowData { schema, tb, row_type: RowType::Insert, before: ColMap::new(), after, position })
    }

    /// Build a delete row from its before image.
    pub fn new_delete(schema: String, tb: String, before: ColMap, position: Position) -> (r:
        Result<RowData, crate::error::DtError>)
        requires
            before.well_formed(),
        ensures
            match r {
                Ok(row) => {
                    &&& row.well_formed()
                    &&& row.row_type == RowType::Delete
                    &&& row.schema == schema
                    &&& row.tb == tb
                    &&& row.before@ == before@
                    &&& row.position == position
                },
                Err(e) => e.kind == crate::error::DtErrorKind::Encoding && before@.dom()
                    =~= Set::<Seq<char>>::empty(),
            },
    {
        if before.is_empty() {
            return Err(
                crate::error::DtError::for_table(
                    crate::error::DtErrorKind::Encoding,
                    schema,
                    tb,
                    String::new(),
                ),
            );
        }
        Ok(
            RowData {
                schema,
                tb,
                row_type: RowType::Delete,
                before,
                after: ColMap::new(),
                position,
            },
        )
    }

    /// Build an update row from both images; they must cover the same
    /// columns.
    pub fn new_update(
        schema: String,
        tb: String,
        before: ColMap,
        after: ColMap,
        position: Position,
    ) -> (r: Result<RowData, crate::error::DtError>)
        requires
            before.well_formed(),
            after.well_formed(),
            before@.dom() =~= after@.dom(),
        ensures
            match r {
                Ok(row) => {
                    &&& row.well_formed()
                    &&& row.row_type == RowType::Update
                    &&& row.schema == schema
                    &&& row.tb == tb
                    &&& row.before@ == before@
                    &&& row.after@ == after@
                    &&& row.position == position
                },
                Err(e) => e.kind == crate::error::DtErrorKind::Encoding && after@.dom()
                    =~= Set::<Seq<char>>::empty(),
            },
    {
        if after.is_empty() {
            return Err(
                crate::error::DtError::for_table(
                    crate::error::DtErrorKind::Encoding,
                    schema,
                    tb,
                    String::new(),
                ),
            );
        }
        Ok(RowData { schema, tb, row_type: RowType::Update, before, after, position })
    }

    /// Byte cost of the row for the queue's accounting: both images plus
    /// a flat overhead.
    pub fn byte_size(&self) -> (r: u64)
        ensures
            r == row_size(*self),
    {
        sat_add_u64(64, sat_add_u64(self.before.byte_size(), self.after.byte_size()))
    }
}

/// Byte cost of a row: both images plus a flat overhead of 64.
pub open spec fn row_size(row: RowData) -> nat {
    sat_add(64, sat_add(row.before.size_spec(), row.after.size_spec()))
}

} // verus!
