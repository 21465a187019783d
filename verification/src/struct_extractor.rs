use vstd::prelude::*;

use crate::dt_data::{DdlData, DdlType, DtItem, StructStatement};
use crate::dt_queue::DtQueue;
use crate::error::{DtError, DtErrorKind};

verus! {

/// Whether `item` is the DDL item that wraps `statement` for schema `db`:
/// no routing applied yet, no raw query text, unknown DDL type.
pub open spec fn is_struct_item(item: DtItem, db: Seq<char>, statement: StructStatement) -> bool {
    match item {
        DtItem::Ddl(d) => {
            &&& d.schema@ == db
            &&& d.tb@.len() == 0
            &&& d.query@.len() == 0
            &&& d.statement == Some(statement)
            &&& d.ddl_type == DdlType::Unknown
        },
        _ => false,
    }
}

/// The structure extractor: it wraps the statements the catalog fetcher
/// produced as DDL items and queues them, the create-database statement
/// first, then the create-table statements in the (dependency) order
/// handed in. The catalog queries themselves are the fetcher's work; only
/// their output flows through here.
pub struct MysqlStructExtractor {
    pub db: String,
}

impl MysqlStructExtractor {
    /// Wrap one structure statement as a DDL item and queue it. When the
    /// queue refuses it, the statement comes back for a later retry and
    /// nothing changes.
    pub fn push_dt_data(&self, buffer: &mut DtQueue, statement: StructStatement) -> (r: Result<
        (),
        StructStatement,
    >)
        requires
            old(buffer).wf(),
        ensures
            final(buffer).wf(),
            final(buffer).item_cap() == old(buffer).item_cap(),
            final(buffer).byte_cap() == old(buffer).byte_cap(),
            match r {
                Ok(()) => final(buffer)@.len() == old(buffer)@.len() + 1 && final(buffer)@.take(
                    old(buffer)@.len() as int,
                ) == old(buffer)@ && is_struct_item(final(buffer)@.last(), self.db@, statement),
                Err(back) => back == statement && final(buffer)@ == old(buffer)@,
            },
            r is Ok <==> old(buffer).accepts_control(),
    {
        let ddl_data = DdlData {
            schema: self.db.clone(),
            tb: String::new(),
            query: String::new(),
            statement: Some(statement),
            ddl_type: DdlType::Unknown,
        };
        let item = DtItem::Ddl(ddl_data);
        let ghost item_g = item;
        proof {
            assert(crate::dt_data::item_size(item_g) == 64);
        }
        match buffer.push(item) {
            Ok(()) => {
                proof {
                    assert(buffer@.take(old(buffer)@.len() as int) =~= old(buffer)@);
                }
                Ok(())
            },
            Err(back) => {
                match back {
                    DtItem::Ddl(d) => {
                        match d.statement {
                            Some(s) => Err(s),
                            None => {
                                proof {
                                    assert(false);
                                }
                                Err(StructStatement::MysqlCreateDatabase {
                                    statement: String::new(),
                                })
                            },
                        }
                    },
                    _ => {
                        proof {
                            assert(false);
                        }
                        Err(StructStatement::MysqlCreateDatabase { statement: String::new() })
                    },
                }
            },
        }
    }

    /// Queue a whole structure snapshot: the database statement first,
    /// then every table statement in the order given. On a full queue a
    /// prefix has been queued, in that same order, and the caller sees a
    /// clean cancellation.
    pub fn extract_internal(
        &self,
        buffer: &mut DtQueue,
        database: StructStatement,
        tables: Vec<StructStatement>,
    ) -> (r: Result<(), DtError>)
        requires
            old(buffer).wf(),
        ensures
            final(buffer).wf(),
            final(buffer).item_cap() == old(buffer).item_cap(),
            final(buffer).byte_cap() == old(buffer).byte_cap(),
            final(buffer)@.len() >= old(buffer)@.len(),
            final(buffer)@.take(old(buffer)@.len() as int) == old(buffer)@,
            final(buffer)@.len() <= old(buffer)@.len() + 1 + tables@.len(),
            final(buffer)@.len() > old(buffer)@.len() ==> is_struct_item(
                final(buffer)@[old(buffer)@.len() as int],
                self.db@,
                database,
            ),
            forall|i: int|
                old(buffer)@.len() + 1 <= i < final(buffer)@.len() ==> is_struct_item(
                    #[trigger] final(buffer)@[i],
                    self.db@,
                    tables@[i - old(buffer)@.len() - 1],
                ),
            r is Ok <==> final(buffer)@.len() == old(buffer)@.len() + 1 + tables@.len(),
            r is Err ==> (r matches Err(e) && e.kind == DtErrorKind::Cancelled),
            old(buffer).item_cap() is None && old(buffer).byte_cap() == 0 ==> r is Ok,
    {
        let ghost base = old(buffer)@.len() as int;
        match self.push_dt_data(buffer, database.duplicate()) {
            Ok(()) => {},
            Err(_) => {
                proof {
                    assert(buffer@.take(old(buffer)@.len() as int) =~= old(buffer)@);
                    if old(buffer).item_cap() is None && old(buffer).byte_cap() == 0 {
                        assert(false);
                    }
                }
                return Err(
                    DtError::new(
                        DtErrorKind::Cancelled,
                        String::from_str("transfer queue refused a structure item"),
                    ),
                );
            },
        }
        proof {
            assert(buffer@[base] == buffer@.last());
        }
        let total = tables.len();
        let mut j: usize = 0;
        while j < total
            invariant
                buffer.wf(),
                buffer.item_cap() == old(buffer).item_cap(),
                buffer.byte_cap() == old(buffer).byte_cap(),
                total == tables@.len(),
                j <= total,
                buffer@.len() == base + 1 + j,
                base == old(buffer)@.len(),
                buffer@.take(base) == old(buffer)@,
                is_struct_item(buffer@[base], self.db@, database),
                forall|i: int|
                    base + 1 <= i < buffer@.len() ==> is_struct_item(
                        #[trigger] buffer@[i],
                        self.db@,
                        tables@[i - base - 1],
                    ),
            decreases total - j,
        {
            let stmt = tables[j].duplicate();
            let ghost pre_q = buffer@;
            match self.push_dt_data(buffer, stmt) {
                Ok(()) => {
                    proof {
                        assert(buffer@.take(pre_q.len() as int) == pre_q);
                        assert forall|i: int| 0 <= i < pre_q.len() implies buffer@[i] == pre_q[i] by {
                            assert(buffer@.take(pre_q.len() as int)[i] == buffer@[i]);
                        }
                        assert(buffer@.take(base) =~= pre_q.take(base));
                        assert(buffer@[base] == pre_q[base]);
                        assert(buffer@[base + 1 + j] == buffer@.last());
                        assert forall|i: int|
                            base + 1 <= i < buffer@.len() implies is_struct_item(
                            buffer@[i],
                            self.db@,
                            tables@[i - base - 1],
                        ) by {
                            if i < base + 1 + j {
                                assert(buffer@[i] == pre_q[i]);
                                assert(is_struct_item(pre_q[i], self.db@, tables@[i - base - 1]));
                            } else {
                                assert(i == base + 1 + j);
                            }
                        }
                    }
                },
                Err(_) => {
                    proof {
                        if old(buffer).item_cap() is None && old(buffer).byte_cap() == 0 {
                            assert(false);
                        }
                    }
                    return Err(
                        DtError::new(
                            DtErrorKind::Cancelled,
                            String::from_str("transfer queue refused a structure item"),
                        ),
                    );
                },
            }
            j = j + 1;
        }
        Ok(())
    }
}

} // verus!
