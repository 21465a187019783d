use vstd::prelude::*;

use crate::col_value::ColValue;
use crate::error::DtError;
use crate::rdb_query_builder::{
    batch_delete_sql, batch_insert_sql, bind_views, binds_for, delete_sql, dup_cols, eq_pair_strs,
    excluded_pair_strs, get_insert_query, get_query_info, insert_sql, ph_list_strs, quoted_views,
    row_binds, update_sql, upsert_suffix,
};
use crate::row_data::{RowData, RowType};
use crate::sql_text::{join_strs, quote_cols, views_of};
use crate::tb_meta::{non_keys, TbMeta};

verus! {

/// One executable statement: its SQL text, the column names the binds
/// belong to, and the bound values in placeholder order.
pub struct SqlCommand {
    pub sql: String,
    pub cols: Vec<String>,
    pub binds: Vec<ColValue>,
}

/// One step of a sink plan. A `Batch` step carries the serial fallback to
/// run when the batched statement fails, so that offending rows surface
/// their own errors while valid rows still land. A `Direct` step's failure
/// is fatal.
pub enum SinkStep {
    Batch { cmd: SqlCommand, fallback: Vec<SqlCommand> },
    Direct { cmd: SqlCommand },
}

/// The ordered statements that apply a DML batch to the target.
pub struct SinkPlan {
    pub steps: Vec<SinkStep>,
}

/// What the serial path emits for one row: an upsert for an insert, an
/// update by id columns, or a delete by id columns.
pub open spec fn serial_cmd_ok(cmd: SqlCommand, meta: TbMeta, row: RowData) -> bool {
    match row.row_type {
        RowType::Insert => {
            &&& cmd.sql@ == insert_sql(meta) + upsert_suffix(meta)
            &&& bind_views(cmd.binds@) == row_binds(row.after@, meta.cols@) + row_binds(
                row.after@,
                non_keys(meta.cols@, meta.id_cols@),
            )
        },
        RowType::Update => {
            &&& cmd.sql@ == update_sql(meta)
            &&& bind_views(cmd.binds@) == row_binds(row.after@, meta.cols@) + row_binds(
                row.before@,
                meta.id_cols@,
            )
        },
        RowType::Delete => {
            &&& cmd.sql@ == delete_sql(meta)
            &&& bind_views(cmd.binds@) == row_binds(row.before@, meta.id_cols@)
        },
    }
}

/// One serial statement per row, in row order.
pub open spec fn serial_cmds_ok(cmds: Seq<SqlCommand>, meta: TbMeta, rows: Seq<RowData>) -> bool {
    &&& cmds.len() == rows.len()
    &&& forall|i: int| 0 <= i < rows.len() ==> serial_cmd_ok(cmds[i], meta, rows[i])
}

/// The after-image binds of `count` rows from `start`, concatenated in row
/// order.
pub open spec fn batch_after_binds(
    rows: Seq<RowData>,
    cols: Seq<String>,
    start: int,
    count: nat,
) -> Seq<crate::col_value::ColValueModel>
    decreases count,
{
    if count == 0 {
        Seq::empty()
    } else {
        row_binds(rows[start].after@, cols) + batch_after_binds(
            rows,
            cols,
            start + 1,
            (count - 1) as nat,
        )
    }
}

/// The before-image binds of `count` rows from `start`, concatenated in
/// row order.
pub open spec fn batch_before_binds(
    rows: Seq<RowData>,
    cols: Seq<String>,
    start: int,
    count: nat,
) -> Seq<crate::col_value::ColValueModel>
    decreases count,
{
    if count == 0 {
        Seq::empty()
    } else {
        row_binds(rows[start].before@, cols) + batch_before_binds(
            rows,
            cols,
            start + 1,
            (count - 1) as nat,
        )
    }
}

/// The batched-insert steps that cover `rows[start..]` in sub-batches of
/// at most `bs`: each step's statement is the chunked VALUES upsert over
/// its rows, and its fallback is exactly the serial statements of the same
/// rows, in order.
pub open spec fn insert_steps_ok(
    steps: Seq<SinkStep>,
    meta: TbMeta,
    rows: Seq<RowData>,
    start: int,
    bs: nat,
) -> bool
    decreases rows.len() - start,
{
    if start < 0 || start >= rows.len() {
        steps.len() == 0
    } else if bs == 0 {
        false
    } else {
        let cnt = if bs <= rows.len() - start {
            bs as int
        } else {
            rows.len() - start
        };
        &&& steps.len() >= 1
        &&& match steps[0] {
            SinkStep::Batch { cmd, fallback } => {
                &&& cmd.sql@ == batch_insert_sql(meta, cnt as nat)
                &&& bind_views(cmd.binds@) == batch_after_binds(rows, meta.cols@, start, cnt as nat)
                &&& serial_cmds_ok(fallback@, meta, rows.subrange(start, start + cnt))
            },
            SinkStep::Direct { .. } => false,
        }
        &&& insert_steps_ok(steps.skip(1), meta, rows, start + cnt, bs)
    }
}

/// The batched-delete steps that cover `rows[start..]` in sub-batches of
/// at most `bs`; a failing delete batch is fatal, so the steps are direct.
pub open spec fn delete_steps_ok(
    steps: Seq<SinkStep>,
    meta: TbMeta,
    rows: Seq<RowData>,
    start: int,
    bs: nat,
) -> bool
    decreases rows.len() - start,
{
    if start < 0 || start >= rows.len() {
        steps.len() == 0
    } else if bs == 0 {
        false
    } else {
        let cnt = if bs <= rows.len() - start {
            bs as int
        } else {
            rows.len() - start
        };
        &&& steps.len() >= 1
        &&& match steps[0] {
            SinkStep::Direct { cmd } => {
                &&& cmd.sql@ == batch_delete_sql(meta, cnt as nat)
                &&& bind_views(cmd.binds@) == batch_before_binds(rows, meta.id_cols@, start, cnt as nat)
            },
            SinkStep::Batch { .. } => false,
        }
        &&& delete_steps_ok(steps.skip(1), meta, rows, start + cnt, bs)
    }
}

/// A direct step carrying exactly the serial statement of `row`.
pub open spec fn direct_step_ok(step: SinkStep, meta: TbMeta, row: RowData) -> bool {
    match step {
        SinkStep::Direct { cmd } => serial_cmd_ok(cmd, meta, row),
        SinkStep::Batch { .. } => false,
    }
}

/// Every row shares `ty` as its row type; false on an empty batch.
pub open spec fn all_of_type(rows: Seq<RowData>, ty: RowType) -> bool {
    rows.len() > 0 && forall|i: int| 0 <= i < rows.len() ==> rows[i].row_type == ty
}

proof fn lemma_non_keys_len(cols: Seq<String>, ids: Seq<String>)
    ensures
        non_keys(cols, ids).len() <= cols.len(),
    decreases cols.len(),
{
    if cols.len() > 0 {
        lemma_non_keys_len(cols.drop_last(), ids);
    }
}

/// The Postgres sinker: it turns DML batches into executable statements,
/// splitting them into sub-batches of `batch_size` and attaching the
/// serial fallback for batched inserts.
pub struct PgSinker {
    pub batch_size: usize,
}

impl PgSinker {
    /// The sinker invariant: a positive, bounded sub-batch size.
    pub open spec fn wf(&self) -> bool {
        0 < self.batch_size <= 100000
    }

    /// The single-row upsert statement: the plain insert plus an ON
    /// CONFLICT clause that updates every non-key column, with
    /// placeholders numbered after the VALUES clause.
    pub fn get_insert_query(&self, meta: &TbMeta, row: &RowData) -> (r: (
        String,
        Vec<String>,
        Vec<ColValue>,
    ))
        requires
            meta.wf(),
            row.well_formed(),
            row.row_type == RowType::Insert,
        ensures
            r.0@ == insert_sql(*meta) + upsert_suffix(*meta),
            r.1@ == meta.cols@ + non_keys(meta.cols@, meta.id_cols@),
            bind_views(r.2@) == row_binds(row.after@, meta.cols@) + row_binds(
                row.after@,
                non_keys(meta.cols@, meta.id_cols@),
            ),
    {
        let (mut sql, mut cols, mut binds) = get_insert_query(meta, row);
        sql.append(" ON CONFLICT (");
        let qids = quote_cols(&meta.id_cols);
        proof {
            assert(views_of(qids@) =~= quoted_views(meta.id_cols@));
        }
        let ids_joined = join_strs(&qids, ",");
        sql.append(ids_joined.as_str());
        let nk = meta.non_key_cols();
        proof {
            lemma_non_keys_len(meta.cols@, meta.id_cols@);
        }
        if nk.len() == 0 {
            sql.append(") DO NOTHING");
        } else {
            sql.append(") DO UPDATE SET ");
            let pairs = eq_pair_strs(&nk, meta.cols.len() as u64);
            let pairs_joined = join_strs(&pairs, ",");
            sql.append(pairs_joined.as_str());
        }
        let mut nk_cols = dup_cols(&nk);
        cols.append(&mut nk_cols);
        let mut nk_binds = binds_for(&row.after, &nk);
        proof {
            assert(sql@ =~= insert_sql(*meta) + upsert_suffix(*meta));
            assert(bind_views(binds@ + nk_binds@) =~= bind_views(binds@) + bind_views(nk_binds@));
        }
        binds.append(&mut nk_binds);
        (sql, cols, binds)
    }

    /// The serial statement for one row.
    fn serial_cmd(&self, meta: &TbMeta, row: &RowData) -> (r: SqlCommand)
        requires
            meta.wf(),
            row.well_formed(),
        ensures
            serial_cmd_ok(r, *meta, *row),
    {
        match row.row_type {
            RowType::Insert => {
                let (sql, cols, binds) = self.get_insert_query(meta, row);
                SqlCommand { sql, cols, binds }
            },
            RowType::Update => self.query_info_cmd(meta, row),
            RowType::Delete => self.query_info_cmd(meta, row),
        }
    }

    /// The serial statement for an update or delete row.
    fn query_info_cmd(&self, meta: &TbMeta, row: &RowData) -> (r: SqlCommand)
        requires
            meta.wf(),
            row.well_formed(),
            row.row_type != RowType::Insert,
        ensures
            serial_cmd_ok(r, *meta, *row),
    {
        match get_query_info(meta, row) {
            Ok(parts) => SqlCommand { sql: parts.0, cols: parts.1, binds: parts.2 },
            Err(_) => {
                proof {
                    assert(false);
                }
                SqlCommand { sql: String::new(), cols: Vec::new(), binds: Vec::new() }
            },
        }
    }

    /// The serial statements for `rows[start..start+count]`, one per row,
    /// in row order.
    pub fn serial_sink(&self, meta: &TbMeta, data: &Vec<RowData>, start: usize, count: usize) -> (r:
        Vec<SqlCommand>)
        requires
            meta.wf(),
            start + count <= data@.len(),
            forall|i: int| 0 <= i < data@.len() ==> data@[i].well_formed(),
        ensures
            serial_cmds_ok(r@, *meta, data@.subrange(start as int, start + count as int)),
    {
        let total = data.len();
        let mut out: Vec<SqlCommand> = Vec::new();
        let mut i: usize = 0;
        while i < count
            invariant
                meta.wf(),
                total == data@.len(),
                start + count <= data@.len(),
                forall|k: int| 0 <= k < data@.len() ==> data@[k].well_formed(),
                i <= count,
                out@.len() == i,
                forall|k: int| 0 <= k < i ==> serial_cmd_ok(out@[k], *meta, data@[start + k]),
            decreases count - i,
        {
            let cmd = self.serial_cmd(meta, &data[start + i]);
            out.push(cmd);
            i = i + 1;
        }
        out
    }

    /// The batched upsert statement for `count` rows from `start`.
    fn batch_insert_cmd(&self, meta: &TbMeta, data: &Vec<RowData>, start: usize, count: usize) -> (r:
        SqlCommand)
        requires
            meta.wf(),
            0 < count <= 100000,
            start + count <= data@.len(),
            forall|i: int| 0 <= i < data@.len() ==> data@[i].well_formed(),
        ensures
            r.sql@ == batch_insert_sql(*meta, count as nat),
            bind_views(r.binds@) == batch_after_binds(data@, meta.cols@, start as int, count as nat),
    {
        let mut sql = String::from_str("INSERT INTO ");
        let t = crate::rdb_query_builder::table_name_str(meta);
        sql.append(t.as_str());
        sql.append(" (");
        let qcols = quote_cols(&meta.cols);
        proof {
            assert(views_of(qcols@) =~= quoted_views(meta.cols@));
        }
        let cols_joined = join_strs(&qcols, ",");
        sql.append(cols_joined.as_str());
        sql.append(") VALUES ");
        proof {
            assert((meta.cols@.len() as int) * (count as int) <= 1000000int * 100000int)
                by (nonlinear_arith)
                requires
                    meta.cols@.len() <= 1000000,
                    count <= 100000;
        }
        let groups = value_group_strs(0, meta.cols.len() as u64, count as u64);
        let groups_joined = join_strs(&groups, ",");
        sql.append(groups_joined.as_str());
        sql.append(" ON CONFLICT (");
        let qids = quote_cols(&meta.id_cols);
        proof {
            assert(views_of(qids@) =~= quoted_views(meta.id_cols@));
        }
        let ids_joined = join_strs(&qids, ",");
        sql.append(ids_joined.as_str());
        let nk = meta.non_key_cols();
        proof {
            lemma_non_keys_len(meta.cols@, meta.id_cols@);
        }
        if nk.len() == 0 {
            sql.append(") DO NOTHING");
        } else {
            sql.append(") DO UPDATE SET ");
            let pairs = excluded_pair_strs(&nk);
            let pairs_joined = join_strs(&pairs, ",");
            sql.append(pairs_joined.as_str());
        }
        proof {
            assert(sql@ =~= batch_insert_sql(*meta, count as nat));
        }
        let binds = batch_after_bind_vals(data, &meta.cols, start, count);
        let cols = dup_cols(&meta.cols);
        SqlCommand { sql, cols, binds }
    }

    /// The batched-insert steps covering `data[start..]`, each with its
    /// serial fallback.
    fn batch_insert_steps(&self, meta: &TbMeta, data: &Vec<RowData>, start: usize) -> (r: Vec<
        SinkStep,
    >)
        requires
            self.wf(),
            meta.wf(),
            start <= data@.len(),
            forall|i: int| 0 <= i < data@.len() ==> data@[i].well_formed(),
        ensures
            insert_steps_ok(r@, *meta, data@, start as int, self.batch_size as nat),
        decreases data@.len() - start,
    {
        if start >= data.len() {
            Vec::new()
        } else {
            let cnt = if self.batch_size <= data.len() - start {
                self.batch_size
            } else {
                data.len() - start
            };
            let cmd = self.batch_insert_cmd(meta, data, start, cnt);
            let fallback = self.serial_sink(meta, data, start, cnt);
            let step = SinkStep::Batch { cmd, fallback };
            let mut rest = self.batch_insert_steps(meta, data, start + cnt);
            let ghost rest0 = rest@;
            let mut out: Vec<SinkStep> = Vec::new();
            out.push(step);
            out.append(&mut rest);
            proof {
                assert(out@.skip(1) =~= rest0);
            }
            out
        }
    }

    /// The batched delete statement for `count` rows from `start`.
    fn batch_delete_cmd(&self, meta: &TbMeta, data: &Vec<RowData>, start: usize, count: usize) -> (r:
        SqlCommand)
        requires
            meta.wf(),
            0 < count <= 100000,
            start + count <= data@.len(),
            forall|i: int| 0 <= i < data@.len() ==> data@[i].well_formed(),
        ensures
            r.sql@ == batch_delete_sql(*meta, count as nat),
            bind_views(r.binds@) == batch_before_binds(
                data@,
                meta.id_cols@,
                start as int,
                count as nat,
            ),
    {
        let mut sql = String::from_str("DELETE FROM ");
        let t = crate::rdb_query_builder::table_name_str(meta);
        sql.append(t.as_str());
        sql.append(" WHERE (");
        let qids = quote_cols(&meta.id_cols);
        proof {
            assert(views_of(qids@) =~= quoted_views(meta.id_cols@));
        }
        let ids_joined = join_strs(&qids, ",");
        sql.append(ids_joined.as_str());
        sql.append(") IN (");
        proof {
            assert((meta.id_cols@.len() as int) * (count as int) <= 1000000int * 100000int)
                by (nonlinear_arith)
                requires
                    meta.id_cols@.len() <= 1000000,
                    count <= 100000;
        }
        let groups = value_group_strs(0, meta.id_cols.len() as u64, count as u64);
        let groups_joined = join_strs(&groups, ",");
        sql.append(groups_joined.as_str());
        sql.append(")");
        proof {
            assert(sql@ =~= batch_delete_sql(*meta, count as nat));
        }
        let binds = batch_before_bind_vals(data, &meta.id_cols, start, count);
        let cols = dup_cols(&meta.id_cols);
        SqlCommand { sql, cols, binds }
    }

    /// The batched-delete steps covering `data[start..]`.
    fn batch_delete_steps(&self, meta: &TbMeta, data: &Vec<RowData>, start: usize) -> (r: Vec<
        SinkStep,
    >)
        requires
            self.wf(),
            meta.wf(),
            start <= data@.len(),
            forall|i: int| 0 <= i < data@.len() ==> data@[i].well_formed(),
        ensures
            delete_steps_ok(r@, *meta, data@, start as int, self.batch_size as nat),
        decreases data@.len() - start,
    {
        if start >= data.len() {
            Vec::new()
        } else {
            let cnt = if self.batch_size <= data.len() - start {
                self.batch_size
            } else {
                data.len() - start
            };
            let cmd = self.batch_delete_cmd(meta, data, start, cnt);
            let step = SinkStep::Direct { cmd };
            let mut rest = self.batch_delete_steps(meta, data, start + cnt);
            let ghost rest0 = rest@;
            let mut out: Vec<SinkStep> = Vec::new();
            out.push(step);
            out.append(&mut rest);
            proof {
                assert(out@.skip(1) =~= rest0);
            }
            out
        }
    }

    /// Plan the application of a DML batch, as the sinker contract states
    /// it: nothing for an empty batch; the serial path when batching is
    /// off or the rows do not all share one row type; the chunked upsert
    /// path (with serial fallbacks) for inserts; the chunked delete path
    /// for deletes.
    pub fn sink_dml(&self, meta: &TbMeta, data: &Vec<RowData>, batch: bool) -> (r: SinkPlan)
        requires
            self.wf(),
            meta.wf(),
            forall|i: int| 0 <= i < data@.len() ==> data@[i].well_formed(),
        ensures
            data@.len() == 0 ==> r.steps@.len() == 0,
            data@.len() > 0 && (!batch || (!all_of_type(data@, RowType::Insert) && !all_of_type(
                data@,
                RowType::Delete,
            ))) ==> {
                &&& r.steps@.len() == data@.len()
                &&& forall|i: int|
                    0 <= i < data@.len() ==> direct_step_ok(#[trigger] r.steps@[i], *meta, data@[i])
            },
            batch && all_of_type(data@, RowType::Insert) ==> insert_steps_ok(
                r.steps@,
                *meta,
                data@,
                0,
                self.batch_size as nat,
            ),
            batch && all_of_type(data@, RowType::Delete) ==> delete_steps_ok(
                r.steps@,
                *meta,
                data@,
                0,
                self.batch_size as nat,
            ),
    {
        if data.len() == 0 {
            return SinkPlan { steps: Vec::new() };
        }
        if batch {
            let mut all_insert: bool = true;
            let mut all_delete: bool = true;
            let mut i: usize = 0;
            while i < data.len()
                invariant
                    i <= data@.len(),
                    all_insert == (forall|k: int|
                        0 <= k < i ==> data@[k].row_type == RowType::Insert),
                    all_delete == (forall|k: int|
                        0 <= k < i ==> data@[k].row_type == RowType::Delete),
                decreases data@.len() - i,
            {
                match data[i].row_type {
                    RowType::Insert => {
                        all_delete = false;
                    },
                    RowType::Delete => {
                        all_insert = false;
                    },
                    RowType::Update => {
                        all_insert = false;
                        all_delete = false;
                    },
                }
                i = i + 1;
            }
            if all_insert {
                return SinkPlan { steps: self.batch_insert_steps(meta, data, 0) };
            }
            if all_delete {
                return SinkPlan { steps: self.batch_delete_steps(meta, data, 0) };
            }
        }
        let mut rest = self.serial_sink(meta, data, 0, data.len());
        proof {
            assert(data@.subrange(0, data@.len() as int) =~= data@);
        }
        let ghost all = rest@;
        let n = rest.len();
        let mut out: Vec<SinkStep> = Vec::new();
        let mut k: usize = 0;
        while k < n
            invariant
                n == all.len(),
                all.len() == data@.len(),
                k <= n,
                rest@ == all.skip(k as int),
                out@.len() == k,
                forall|m: int|
                    0 <= m < k ==> (#[trigger] out@[m]) == (SinkStep::Direct { cmd: all[m] }),
                forall|m: int| 0 <= m < all.len() ==> serial_cmd_ok(all[m], *meta, data@[m]),
            decreases n - k,
        {
            let cmd = rest.remove(0);
            proof {
                assert(all.skip(k as int)[0] == all[k as int]);
                assert(all.skip(k as int).remove(0) =~= all.skip(k + 1 as int));
            }
            out.push(SinkStep::Direct { cmd });
            k = k + 1;
        }
        SinkPlan { steps: out }
    }

    /// Planning DDL application: this sinker does not replay DDL, so the
    /// plan is empty.
    pub fn sink_ddl(&self, _data: &Vec<crate::dt_data::DdlData>) -> (r: SinkPlan)
        ensures
            r.steps@.len() == 0,
    {
        SinkPlan { steps: Vec::new() }
    }
}

/// The parenthesised placeholder groups for `count` rows of `n`
/// placeholders, numbered from `base`, exactly as `value_groups` states
/// them for `base == 0`.
fn value_group_strs(base: u64, n: u64, count: u64) -> (r: Vec<String>)
    requires
        n <= 1000000,
        count <= 100000,
        base + n * count <= u64::MAX,
    ensures
        views_of(r@) == crate::rdb_query_builder::value_groups(base as nat, n as nat, count as nat),
    decreases count,
{
    if count == 0 {
        Vec::new()
    } else {
        proof {
            assert(n * count == n * (count - 1) + n) by (nonlinear_arith)
                requires
                    count >= 1;
            assert(n * (count - 1) >= 0) by (nonlinear_arith)
                requires
                    count >= 1;
        }
        let phs = ph_list_strs(base, n);
        let phs_joined = join_strs(&phs, ",");
        let mut group = String::from_str("(");
        group.append(phs_joined.as_str());
        group.append(")");
        let mut rest = value_group_strs(base + n, n, count - 1);
        let ghost rest0 = rest@;
        let mut out: Vec<String> = Vec::new();
        out.push(group);
        out.append(&mut rest);
        proof {
            assert(views_of(out@) =~= seq![group@] + views_of(rest0));
        }
        out
    }
}

/// The after-image binds of `count` rows from `start`, as
/// `batch_after_binds` states them.
fn batch_after_bind_vals(data: &Vec<RowData>, cols: &Vec<String>, start: usize, count: usize) -> (r:
    Vec<ColValue>)
    requires
        start + count <= data@.len(),
        forall|i: int| 0 <= i < data@.len() ==> data@[i].well_formed(),
    ensures
        bind_views(r@) == batch_after_binds(data@, cols@, start as int, count as nat),
    decreases count,
{
    if count == 0 {
        Vec::new()
    } else {
        let _total = data.len();
        let mut first = binds_for(&data[start].after, cols);
        let mut rest = batch_after_bind_vals(data, cols, start + 1, count - 1);
        proof {
            assert(bind_views(first@ + rest@) =~= bind_views(first@) + bind_views(rest@));
        }
        first.append(&mut rest);
        first
    }
}

/// The before-image binds of `count` rows from `start`, as
/// `batch_before_binds` states them.
fn batch_before_bind_vals(data: &Vec<RowData>, cols: &Vec<String>, start: usize, count: usize) -> (r:
    Vec<ColValue>)
    requires
        start + count <= data@.len(),
        forall|i: int| 0 <= i < data@.len() ==> data@[i].well_formed(),
    ensures
        bind_views(r@) == batch_before_binds(data@, cols@, start as int, count as nat),
    decreases count,
{
    if count == 0 {
        Vec::new()
    } else {
        let _total = data.len();
        let mut first = binds_for(&data[start].before, cols);
        let mut rest = batch_before_bind_vals(data, cols, start + 1, count - 1);
        proof {
            assert(bind_views(first@ + rest@) =~= bind_views(first@) + bind_views(rest@));
        }
        first.append(&mut rest);
        first
    }
}

} // verus!
