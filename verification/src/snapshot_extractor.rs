use vstd::prelude::*;

use crate::col_value::{ColValue, ColValueModel};
use crate::dt_data::DtItem;
use crate::dt_queue::DtQueue;
use crate::error::{DtError, DtErrorKind};
use crate::row_data::{RowData, RowType};
use crate::sql_text::dec_str;
use crate::tb_meta::TbMeta;

verus! {

/// The first-slice SELECT: no lower bound, ordered by the slicing column,
/// limited to the slice size.
pub open spec fn first_slice_sql(db: Seq<char>, tb: Seq<char>, col: Seq<char>, n: nat) -> Seq<
    char,
> {
    "SELECT * FROM "@ + db + "."@ + tb + " ORDER BY "@ + col + " ASC LIMIT "@ + dec_str(n)
}

/// A later slice: rows strictly above the recorded start value, in the
/// column's native order.
pub open spec fn next_slice_sql(db: Seq<char>, tb: Seq<char>, col: Seq<char>, n: nat) -> Seq<
    char,
> {
    "SELECT * FROM "@ + db + "."@ + tb + " WHERE "@ + col + " > ? ORDER BY "@ + col
        + " ASC LIMIT "@ + dec_str(n)
}

/// The single-cursor fallback when no slicing column exists.
pub open spec fn full_scan_sql(db: Seq<char>, tb: Seq<char>) -> Seq<char> {
    "SELECT * FROM "@ + db + "."@ + tb
}

/// A query against the source: its SQL and the one optional keyset bound.
pub struct SourceQuery {
    pub sql: String,
    pub bind: Option<ColValue>,
}

/// What the driving loop should do next.
#[derive(Clone, Copy, Debug, PartialEq, Eq, Structural)]
pub enum ExtractAction {
    /// Rows are waiting to enter the queue: call `pump`.
    Pump,
    /// The source has more to give: run `next_query` and feed the rows to
    /// `accept_slice`.
    Fetch,
    /// All rows are queued but not yet consumed: wait and look again.
    WaitDrain,
    /// Everything is drained: call `try_shutdown`.
    Shutdown,
    /// The snapshot is complete and the flag is set.
    Finished,
}

/// Whether a fetched slice cannot advance the keyset bound: the slicing
/// column is missing from the last row, or holds the unbound sentinel (a
/// bound that would restart the scan from the top).
pub open spec fn slice_bound_bad(order_col: Option<String>, rows: Seq<RowData>) -> bool {
    match order_col {
        Some(col) => rows.len() > 0 && (!rows.last().after@.contains_key(col@)
            || rows.last().after@[col@] == ColValueModel::Unset),
        None => false,
    }
}

/// The decision after a failed slice fetch.
pub enum FetchRetry {
    /// The first failure of a query: run the same query once more.
    RetryOnce,
    /// A second consecutive failure: escalate as a transient read error.
    Escalate(DtError),
}

/// The rows wrapped as queue items, in order.
pub open spec fn rows_to_items(rows: Seq<RowData>) -> Seq<DtItem> {
    rows.map_values(|r: RowData| DtItem::Row(r))
}

/// The snapshot extractor as a state machine. It decides the slice
/// queries, owns the not-yet-queued rows, and sets the shutdown flag only
/// once every produced row has been queued and the queue has drained. The
/// driving loop runs the queries and the sleeps; every decision and every
/// queue transfer happens here.
pub struct MysqlSnapshotExtractor {
    pub db: String,
    pub tb: String,
    pub slice_size: usize,
    pub order_col: Option<String>,
    /// The keyset bound for the next slice; `Unset` before the first row.
    pub start_value: ColValue,
    /// Rows fetched but not yet queued, next row last.
    pub pending: Vec<RowData>,
    /// No further source query is needed.
    pub scan_done: bool,
    /// The end-of-stream flag, set strictly after the last push.
    pub shut_down: bool,
    /// Whether the current source query has already failed once.
    pub fetch_failed_once: bool,
    /// Every row the source handed over, in order.
    pub fetched: Ghost<Seq<RowData>>,
    /// Every row pushed into the queue, in order.
    pub pushed: Ghost<Seq<RowData>>,
}

impl MysqlSnapshotExtractor {
    /// The extractor invariant: what was fetched is exactly what was
    /// pushed followed by what is still pending, and the shutdown flag
    /// never leads the work.
    pub open spec fn wf(&self) -> bool {
        &&& self.fetched@ == self.pushed@ + self.pending@.reverse()
        &&& self.shut_down ==> self.scan_done && self.pending@.len() == 0
        &&& self.slice_size >= 1
    }

    /// A fresh extractor for a table.
    pub fn new(meta: &TbMeta, slice_size: usize) -> (r: MysqlSnapshotExtractor)
        requires
            slice_size >= 1,
        ensures
            r.wf(),
            r.db == meta.schema,
            r.tb == meta.tb,
            r.slice_size == slice_size,
            r.order_col == meta.order_col,
            r.start_value == ColValue::Unset,
            r.pending@.len() == 0,
            !r.scan_done,
            !r.shut_down,
            !r.fetch_failed_once,
            r.fetched@ == Seq::<RowData>::empty(),
            r.pushed@ == Seq::<RowData>::empty(),
    {
        let order_col = match &meta.order_col {
            Some(c) => Some(c.clone()),
            None => None,
        };
        let r = MysqlSnapshotExtractor {
            db: meta.schema.clone(),
            tb: meta.tb.clone(),
            slice_size,
            order_col,
            start_value: ColValue::Unset,
            pending: Vec::new(),
            scan_done: false,
            shut_down: false,
            fetch_failed_once: false,
            fetched: Ghost(Seq::empty()),
            pushed: Ghost(Seq::empty()),
        };
        proof {
            assert(r.fetched@ =~= r.pushed@ + r.pending@.reverse());
        }
        r
    }

    /// The next source query: the first or a keyset-bounded slice when a
    /// slicing column exists, the full scan otherwise.
    pub fn next_query(&self) -> (q: SourceQuery)
        requires
            !self.scan_done,
        ensures
            match self.order_col {
                Some(col) => match self.start_value {
                    ColValue::Unset => q.sql@ == first_slice_sql(
                        self.db@,
                        self.tb@,
                        col@,
                        self.slice_size as nat,
                    ) && q.bind is None,
                    _ => q.sql@ == next_slice_sql(
                        self.db@,
                        self.tb@,
                        col@,
                        self.slice_size as nat,
                    ) && (q.bind matches Some(b) && b@ == self.start_value@),
                },
                None => q.sql@ == full_scan_sql(self.db@, self.tb@) && q.bind is None,
            },
    {
        match &self.order_col {
            Some(col) => {
                let limit = crate::sql_text::u64_to_dec(self.slice_size as u64);
                let is_first = match self.start_value {
                    ColValue::Unset => true,
                    _ => false,
                };
                if is_first {
                    let mut sql = String::from_str("SELECT * FROM ");
                    sql.append(self.db.as_str());
                    sql.append(".");
                    sql.append(self.tb.as_str());
                    sql.append(" ORDER BY ");
                    sql.append(col.as_str());
                    sql.append(" ASC LIMIT ");
                    sql.append(limit.as_str());
                    SourceQuery { sql, bind: None }
                } else {
                    let mut sql = String::from_str("SELECT * FROM ");
                    sql.append(self.db.as_str());
                    sql.append(".");
                    sql.append(self.tb.as_str());
                    sql.append(" WHERE ");
                    sql.append(col.as_str());
                    sql.append(" > ? ORDER BY ");
                    sql.append(col.as_str());
                    sql.append(" ASC LIMIT ");
                    sql.append(limit.as_str());
                    SourceQuery { sql, bind: Some(self.start_value.duplicate()) }
                }
            },
            None => {
                let mut sql = String::from_str("SELECT * FROM ");
                sql.append(self.db.as_str());
                sql.append(".");
                sql.append(self.tb.as_str());
                SourceQuery { sql, bind: None }
            },
        }
    }

    /// Take one fetched slice. The rows join the fetched history and wait
    /// to be pumped into the queue; the keyset bound advances to the last
    /// row's slicing value; the scan ends when a slice comes back short
    /// (continue-until-short: an exact-size final slice costs one more,
    /// empty, probe). A slicing row without the slicing column is schema
    /// drift and is rejected whole.
    pub fn accept_slice(&mut self, rows: Vec<RowData>) -> (r: Result<(), DtError>)
        requires
            old(self).wf(),
            !old(self).scan_done,
            !old(self).shut_down,
            old(self).pending@.len() == 0,
            old(self).order_col is Some ==> rows@.len() <= old(self).slice_size,
            forall|i: int|
                0 <= i < rows@.len() ==> (#[trigger] rows@[i]).well_formed() && rows@[i].row_type
                    == RowType::Insert,
        ensures
            match r {
                Ok(()) => {
                    &&& final(self).wf()
                    &&& final(self).fetched@ == old(self).fetched@ + rows@
                    &&& final(self).pushed == old(self).pushed
                    &&& final(self).pending@.reverse() == rows@
                    &&& final(self).scan_done == (match old(self).order_col {
                        Some(_) => rows@.len() < old(self).slice_size,
                        None => true,
                    })
                    &&& !final(self).shut_down
                    &&& final(self).db == old(self).db
                    &&& final(self).tb == old(self).tb
                    &&& final(self).slice_size == old(self).slice_size
                    &&& final(self).order_col == old(self).order_col
                    &&& (match old(self).order_col {
                        Some(col) => rows@.len() > 0 ==> final(self).start_value@
                            == rows@.last().after@[col@],
                        None => true,
                    })
                },
                Err(e) => {
                    &&& e.kind == DtErrorKind::Encoding
                    &&& *final(self) == *old(self)
                },
            },
            r is Err <==> slice_bound_bad(old(self).order_col, rows@),
            r is Ok ==> !final(self).fetch_failed_once,
    {
        let slicing = match &self.order_col {
            Some(_) => true,
            None => false,
        };
        if slicing && rows.len() > 0 {
            let last = &rows[rows.len() - 1];
            let found = match &self.order_col {
                Some(col) => match last.after.get(col) {
                    Some(v) => Some(v.duplicate()),
                    None => None,
                },
                None => None,
            };
            match found {
                Some(v) => {
                    match v {
                        ColValue::Unset => {
                            return Err(
                                DtError::new(
                                    DtErrorKind::Encoding,
                                    String::from_str("slicing column holds no usable bound"),
                                ),
                            );
                        },
                        _ => {
                            self.start_value = v;
                        },
                    }
                },
                None => {
                    return Err(
                        DtError::new(
                            DtErrorKind::Encoding,
                            String::from_str("slicing column missing from a fetched row"),
                        ),
                    );
                },
            }
        }
        self.fetch_failed_once = false;
        self.scan_done = if slicing {
            rows.len() < self.slice_size
        } else {
            true
        };
        proof {
            self.fetched@ = self.fetched@ + rows@;
        }
        let ghost rows0 = rows@;
        let mut rows = rows;
        let mut pend: Vec<RowData> = Vec::new();
        while rows.len() > 0
            invariant
                rows0 == rows@ + pend@.reverse(),
            decreases rows@.len(),
        {
            let ghost pre_rows = rows@;
            let ghost pre_pend = pend@;
            if let Some(row) = rows.pop() {
                pend.push(row);
                proof {
                    assert(pre_rows =~= rows@ + seq![pre_rows.last()]);
                    assert(pend@.reverse() =~= seq![pre_rows.last()] + pre_pend.reverse());
                    assert(rows@ + pend@.reverse() =~= rows0);
                }
            }
        }
        self.pending = pend;
        proof {
            assert(self.pending@.reverse() =~= rows0);
            assert(old(self).fetched@ + rows0 =~= self.pushed@ + self.pending@.reverse());
        }
        Ok(())
    }

    /// Move pending rows into the queue, oldest first, until the queue
    /// refuses one or none are left. Returns whether it was blocked by a
    /// full queue.
    pub fn pump(&mut self, queue: &mut DtQueue) -> (blocked: bool)
        requires
            old(self).wf(),
            old(queue).wf(),
        ensures
            final(self).wf(),
            final(queue).wf(),
            final(queue).item_cap() == old(queue).item_cap(),
            final(queue).byte_cap() == old(queue).byte_cap(),
            final(self).fetched == old(self).fetched,
            final(self).scan_done == old(self).scan_done,
            final(self).shut_down == old(self).shut_down,
            final(self).db == old(self).db,
            final(self).tb == old(self).tb,
            final(self).slice_size == old(self).slice_size,
            final(self).order_col == old(self).order_col,
            final(self).start_value == old(self).start_value,
            final(self).fetch_failed_once == old(self).fetch_failed_once,
            final(self).pushed@.len() >= old(self).pushed@.len(),
            final(self).pushed@.take(old(self).pushed@.len() as int) == old(self).pushed@,
            final(queue)@ == old(queue)@ + rows_to_items(
                final(self).pushed@.skip(old(self).pushed@.len() as int),
            ),
            blocked == (final(self).pending@.len() > 0),
            blocked ==> !final(queue).accepts(DtItem::Row(final(self).pending@.last())),
    {
        let ghost base = old(self).pushed@.len() as int;
        proof {
            assert(old(self).pushed@.take(base) =~= old(self).pushed@);
            assert(rows_to_items(old(self).pushed@.skip(base)) =~= Seq::<DtItem>::empty());
            assert(old(queue)@ + rows_to_items(old(self).pushed@.skip(base)) =~= old(queue)@);
        }
        let mut blocked: bool = false;
        let mut done: bool = false;
        while !done
            invariant
                self.wf(),
                queue.wf(),
                queue.item_cap() == old(queue).item_cap(),
                queue.byte_cap() == old(queue).byte_cap(),
                self.fetched == old(self).fetched,
                self.scan_done == old(self).scan_done,
                self.shut_down == old(self).shut_down,
                self.db == old(self).db,
                self.tb == old(self).tb,
                self.slice_size == old(self).slice_size,
                self.order_col == old(self).order_col,
                self.start_value == old(self).start_value,
                self.fetch_failed_once == old(self).fetch_failed_once,
                self.pushed@.len() >= base,
                base == old(self).pushed@.len(),
                self.pushed@.take(base) == old(self).pushed@,
                queue@ == old(queue)@ + rows_to_items(self.pushed@.skip(base)),
                !done ==> !blocked,
                done ==> blocked == (self.pending@.len() > 0),
                blocked ==> self.pending@.len() > 0 && !queue.accepts(
                    DtItem::Row(self.pending@.last()),
                ),
            decreases self.pending@.len() + (if done {
                0int
            } else {
                1int
            }),
        {
            let ghost pre_pend = self.pending@;
            let ghost pre_pushed = self.pushed@;
            let ghost pre_q = queue@;
            match self.pending.pop() {
                Some(row) => {
                    let ghost row_g = row;
                    match queue.push(DtItem::Row(row)) {
                        Ok(()) => {
                            proof {
                                self.pushed@ = self.pushed@.push(row_g);
                                assert(pre_pend.reverse() =~= seq![row_g]
                                    + self.pending@.reverse());
                                assert(self.pushed@ + self.pending@.reverse() =~= pre_pushed
                                    + pre_pend.reverse());
                                assert(self.pushed@.take(base) =~= pre_pushed.take(base));
                                assert(rows_to_items(self.pushed@.skip(base)) =~= rows_to_items(
                                    pre_pushed.skip(base),
                                ).push(DtItem::Row(row_g)));
                            }
                        },
                        Err(back) => {
                            match back {
                                DtItem::Row(r) => {
                                    self.pending.push(r);
                                    proof {
                                        assert(self.pending@ =~= pre_pend);
                                        assert(self.pending@.last() == row_g);
                                        assert(!queue.accepts(DtItem::Row(row_g)));
                                    }
                                },
                                _ => {
                                    proof {
                                        assert(false);
                                    }
                                },
                            }
                            blocked = true;
                            done = true;
                        },
                    }
                },
                None => {
                    done = true;
                },
            }
        }
        blocked
    }

    /// Set the shutdown flag, but only when the scan is complete, every
    /// row has been pushed, and the queue has drained: the flag becomes
    /// true strictly after the last produced item was pushed.
    pub fn try_shutdown(&mut self, queue: &DtQueue) -> (r: bool)
        requires
            old(self).wf(),
        ensures
            final(self).wf(),
            r == (old(self).scan_done && old(self).pending@.len() == 0 && queue@.len() == 0),
            final(self).shut_down == (old(self).shut_down || r),
            final(self).pushed == old(self).pushed,
            final(self).fetched == old(self).fetched,
            final(self).pending == old(self).pending,
            final(self).scan_done == old(self).scan_done,
            final(self).fetch_failed_once == old(self).fetch_failed_once,
            r ==> final(self).pushed@ == final(self).fetched@,
    {
        if self.scan_done && self.pending.len() == 0 && queue.is_empty() {
            self.shut_down = true;
            proof {
                assert(self.pushed@ + self.pending@.reverse() =~= self.pushed@);
            }
            true
        } else {
            false
        }
    }

    /// A slice fetch failed. The first failure of a query asks the driver
    /// to run the same query once more; a second consecutive failure
    /// escalates as a transient source-read error for this table. A
    /// successfully accepted slice resets the count.
    pub fn on_fetch_error(&mut self) -> (r: FetchRetry)
        requires
            old(self).wf(),
        ensures
            final(self).wf(),
            final(self).db == old(self).db,
            final(self).tb == old(self).tb,
            final(self).slice_size == old(self).slice_size,
            final(self).order_col == old(self).order_col,
            final(self).start_value == old(self).start_value,
            final(self).pending == old(self).pending,
            final(self).scan_done == old(self).scan_done,
            final(self).shut_down == old(self).shut_down,
            final(self).fetched == old(self).fetched,
            final(self).pushed == old(self).pushed,
            !old(self).fetch_failed_once ==> r is RetryOnce && final(self).fetch_failed_once,
            old(self).fetch_failed_once ==> (r matches FetchRetry::Escalate(e) && e.kind
                == DtErrorKind::ExtractIo && e.schema == old(self).db && e.table == old(self).tb
                && !final(self).fetch_failed_once),
    {
        if self.fetch_failed_once {
            self.fetch_failed_once = false;
            FetchRetry::Escalate(
                DtError::for_table(
                    DtErrorKind::ExtractIo,
                    self.db.clone(),
                    self.tb.clone(),
                    String::from_str("the source read failed twice in a row"),
                ),
            )
        } else {
            self.fetch_failed_once = true;
            FetchRetry::RetryOnce
        }
    }

    /// What the driving loop should do next, given the queue it feeds.
    pub fn next_action(&self, queue: &DtQueue) -> (r: ExtractAction)
        ensures
            r == (if self.pending@.len() > 0 {
                ExtractAction::Pump
            } else if !self.scan_done {
                ExtractAction::Fetch
            } else if queue@.len() > 0 {
                ExtractAction::WaitDrain
            } else if !self.shut_down {
                ExtractAction::Shutdown
            } else {
                ExtractAction::Finished
            }),
    {
        if self.pending.len() > 0 {
            ExtractAction::Pump
        } else if !self.scan_done {
            ExtractAction::Fetch
        } else if !queue.is_empty() {
            ExtractAction::WaitDrain
        } else if !self.shut_down {
            ExtractAction::Shutdown
        } else {
            ExtractAction::Finished
        }
    }
}

/// Once the scan is complete and nothing is pending, the pushed rows are
/// exactly the fetched rows, in order: no snapshot row is lost and none is
/// pushed twice.
pub proof fn lemma_snapshot_complete(ex: MysqlSnapshotExtractor)
    requires
        ex.wf(),
        ex.scan_done,
        ex.pending@.len() == 0,
    ensures
        ex.pushed@ == ex.fetched@,
{
    assert(ex.pushed@ + ex.pending@.reverse() =~= ex.pushed@);
}

/// The shutdown flag is true only strictly after every produced item has
/// been pushed: a shut-down extractor has pushed its whole fetched
/// history.
pub proof fn lemma_shutdown_after_all_pushed(ex: MysqlSnapshotExtractor)
    requires
        ex.wf(),
        ex.shut_down,
    ensures
        ex.pushed@ == ex.fetched@,
{
    lemma_snapshot_complete(ex);
}

} // verus!
