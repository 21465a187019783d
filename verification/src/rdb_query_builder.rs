use vstd::prelude::*;

use crate::col_map::ColMap;
use crate::col_value::{ColValue, ColValueModel};
use crate::row_data::RowData;
use crate::sql_text::{
    dec_str, join_strs, joined, placeholder, placeholder_str, quote, quote_cols, quoted, views_of,
};
use crate::tb_meta::{non_keys, TbMeta};

verus! {

/// `schema.table`, both parts quoted, as Postgres statements name a table.
pub open spec fn table_name(meta: TbMeta) -> Seq<char> {
    quoted(meta.schema@) + "."@ + quoted(meta.tb@)
}

/// Each column name quoted.
pub open spec fn quoted_views(cols: Seq<String>) -> Seq<Seq<char>> {
    cols.map_values(|s: String| quoted(s@))
}

/// The placeholders `$base+1 .. $base+count`, in order.
pub open spec fn ph_list(base: nat, count: nat) -> Seq<Seq<char>>
    decreases count,
{
    if count == 0 {
        Seq::empty()
    } else {
        ph_list(base, (count - 1) as nat) + seq![placeholder(base + count)]
    }
}

/// `"col"=$k` pairs for `cols`, with `k` numbered `base+1` onward.
pub open spec fn eq_pairs(cols: Seq<String>, base: nat) -> Seq<Seq<char>>
    decreases cols.len(),
{
    if cols.len() == 0 {
        Seq::empty()
    } else {
        eq_pairs(cols.drop_last(), base) + seq![
            quoted(cols.last()@) + "="@ + placeholder(base + cols.len()),
        ]
    }
}

/// `"col"=EXCLUDED."col"` pairs for `cols`.
pub open spec fn excluded_pairs(cols: Seq<String>) -> Seq<Seq<char>>
    decreases cols.len(),
{
    if cols.len() == 0 {
        Seq::empty()
    } else {
        excluded_pairs(cols.drop_last()) + seq![
            quoted(cols.last()@) + "=EXCLUDED."@ + quoted(cols.last()@),
        ]
    }
}

/// The plain insert statement for a table: every column, one placeholder
/// per column.
pub open spec fn insert_sql(meta: TbMeta) -> Seq<char> {
    "INSERT INTO "@ + table_name(meta) + " ("@ + joined(quoted_views(meta.cols@), ","@)
        + ") VALUES ("@ + joined(ph_list(0, meta.cols@.len()), ","@) + ")"@
}

/// The upsert suffix: on a key conflict update every non-key column from
/// placeholders numbered after the VALUES clause; with no non-key column,
/// do nothing.
pub open spec fn upsert_suffix(meta: TbMeta) -> Seq<char> {
    " ON CONFLICT ("@ + joined(quoted_views(meta.id_cols@), ","@) + (if non_keys(
        meta.cols@,
        meta.id_cols@,
    ).len() == 0 {
        ") DO NOTHING"@
    } else {
        ") DO UPDATE SET "@ + joined(
            eq_pairs(non_keys(meta.cols@, meta.id_cols@), meta.cols@.len()),
            ","@,
        )
    })
}

/// The upsert suffix used on the batched path: non-key columns are set
/// from `EXCLUDED`, so no extra placeholders are needed.
pub open spec fn excluded_suffix(meta: TbMeta) -> Seq<char> {
    " ON CONFLICT ("@ + joined(quoted_views(meta.id_cols@), ","@) + (if non_keys(
        meta.cols@,
        meta.id_cols@,
    ).len() == 0 {
        ") DO NOTHING"@
    } else {
        ") DO UPDATE SET "@ + joined(excluded_pairs(non_keys(meta.cols@, meta.id_cols@)), ","@)
    })
}

/// The parenthesised placeholder groups `($b+1,..,$b+n),($b+n+1,..),...`
/// for `count` rows of `n` placeholders each, numbered from `base`.
pub open spec fn value_groups(base: nat, n: nat, count: nat) -> Seq<Seq<char>>
    decreases count,
{
    if count == 0 {
        Seq::empty()
    } else {
        seq!["("@ + joined(ph_list(base, n), ","@) + ")"@] + value_groups(
            base + n,
            n,
            (count - 1) as nat,
        )
    }
}

/// The batched insert statement for `count` rows, upserting via EXCLUDED.
pub open spec fn batch_insert_sql(meta: TbMeta, count: nat) -> Seq<char> {
    "INSERT INTO "@ + table_name(meta) + " ("@ + joined(quoted_views(meta.cols@), ","@)
        + ") VALUES "@ + joined(value_groups(0, meta.cols@.len(), count), ","@) + excluded_suffix(
        meta,
    )
}

/// The batched delete statement for `count` rows, keyed by the id columns.
pub open spec fn batch_delete_sql(meta: TbMeta, count: nat) -> Seq<char> {
    "DELETE FROM "@ + table_name(meta) + " WHERE ("@ + joined(quoted_views(meta.id_cols@), ","@)
        + ") IN ("@ + joined(value_groups(0, meta.id_cols@.len(), count), ","@) + ")"@
}

/// The single-row update statement: set every column, locate the row by
/// its id columns.
pub open spec fn update_sql(meta: TbMeta) -> Seq<char> {
    "UPDATE "@ + table_name(meta) + " SET "@ + joined(eq_pairs(meta.cols@, 0), ","@) + " WHERE "@
        + joined(eq_pairs(meta.id_cols@, meta.cols@.len()), " AND "@)
}

/// The single-row delete statement, keyed by the id columns.
pub open spec fn delete_sql(meta: TbMeta) -> Seq<char> {
    "DELETE FROM "@ + table_name(meta) + " WHERE "@ + joined(eq_pairs(meta.id_cols@, 0), " AND "@)
}

/// The value bound for column `c` of image `m`: the value when the image
/// holds the column, otherwise the unbound sentinel.
pub open spec fn bind_model(m: Map<Seq<char>, ColValueModel>, c: Seq<char>) -> ColValueModel {
    if m.contains_key(c) {
        m[c]
    } else {
        ColValueModel::Unset
    }
}

/// The bound values of one row image over `cols`, in column order.
pub open spec fn row_binds(m: Map<Seq<char>, ColValueModel>, cols: Seq<String>) -> Seq<
    ColValueModel,
>
    decreases cols.len(),
{
    if cols.len() == 0 {
        Seq::empty()
    } else {
        row_binds(m, cols.drop_last()) + seq![bind_model(m, cols.last()@)]
    }
}

/// The models of a list of bound values.
pub open spec fn bind_views(s: Seq<ColValue>) -> Seq<ColValueModel> {
    s.map_values(|v: ColValue| v@)
}

/// Render the table name, exactly as `table_name` states it.
pub fn table_name_str(meta: &TbMeta) -> (r: String)
    ensures
        r@ == table_name(*meta),
{
    let mut s = quote(&meta.schema);
    s.append(".");
    let t = quote(&meta.tb);
    s.append(t.as_str());
    s
}

/// Render `$base+1 .. $base+count`, exactly as `ph_list` states it.
pub fn ph_list_strs(base: u64, count: u64) -> (r: Vec<String>)
    requires
        base + count <= u64::MAX,
    ensures
        views_of(r@) == ph_list(base as nat, count as nat),
{
    let mut out: Vec<String> = Vec::new();
    let mut j: u64 = 0;
    while j < count
        invariant
            j <= count,
            base + count <= u64::MAX,
            views_of(out@) == ph_list(base as nat, j as nat),
        decreases count - j,
    {
        let ghost pre = views_of(out@);
        out.push(placeholder_str(base + j + 1));
        proof {
            assert(views_of(out@) =~= pre + seq![placeholder((base + j + 1) as nat)]);
        }
        j = j + 1;
    }
    out
}

/// Render the `"col"=$k` pairs, exactly as `eq_pairs` states them.
pub fn eq_pair_strs(cols: &Vec<String>, base: u64) -> (r: Vec<String>)
    requires
        base + cols@.len() <= u64::MAX,
    ensures
        views_of(r@) == eq_pairs(cols@, base as nat),
{
    let mut out: Vec<String> = Vec::new();
    let mut i: usize = 0;
    while i < cols.len()
        invariant
            i <= cols@.len(),
            base + cols@.len() <= u64::MAX,
            views_of(out@) == eq_pairs(cols@.take(i as int), base as nat),
        decreases cols@.len() - i,
    {
        let ghost pre = views_of(out@);
        let mut pair = quote(&cols[i]);
        pair.append("=");
        let ph = placeholder_str(base + (i as u64) + 1);
        pair.append(ph.as_str());
        out.push(pair);
        proof {
            let t = cols@.take(i + 1 as int);
            assert(t.drop_last() =~= cols@.take(i as int));
            assert(t.last() == cols@[i as int]);
            assert(views_of(out@) =~= pre + seq![
                quoted(cols@[i as int]@) + "="@ + placeholder((base + i + 1) as nat),
            ]);
        }
        i = i + 1;
    }
    proof {
        assert(cols@.take(cols@.len() as int) =~= cols@);
    }
    out
}

/// Render the `"col"=EXCLUDED."col"` pairs, exactly as `excluded_pairs`
/// states them.
pub fn excluded_pair_strs(cols: &Vec<String>) -> (r: Vec<String>)
    ensures
        views_of(r@) == excluded_pairs(cols@),
{
    let mut out: Vec<String> = Vec::new();
    let mut i: usize = 0;
    while i < cols.len()
        invariant
            i <= cols@.len(),
            views_of(out@) == excluded_pairs(cols@.take(i as int)),
        decreases cols@.len() - i,
    {
        let ghost pre = views_of(out@);
        let mut pair = quote(&cols[i]);
        pair.append("=EXCLUDED.");
        let q = quote(&cols[i]);
        pair.append(q.as_str());
        out.push(pair);
        proof {
            let t = cols@.take(i + 1 as int);
            assert(t.drop_last() =~= cols@.take(i as int));
            assert(t.last() == cols@[i as int]);
            assert(views_of(out@) =~= pre + seq![
                quoted(cols@[i as int]@) + "=EXCLUDED."@ + quoted(cols@[i as int]@),
            ]);
        }
        i = i + 1;
    }
    proof {
        assert(cols@.take(cols@.len() as int) =~= cols@);
    }
    out
}

/// A copy of a column list, name for name.
pub fn dup_cols(cols: &Vec<String>) -> (r: Vec<String>)
    ensures
        r@ == cols@,
{
    let mut out: Vec<String> = Vec::new();
    let mut i: usize = 0;
    while i < cols.len()
        invariant
            i <= cols@.len(),
            out@ == cols@.take(i as int),
        decreases cols@.len() - i,
    {
        out.push(cols[i].clone());
        proof {
            assert(out@ =~= cols@.take(i + 1 as int));
        }
        i = i + 1;
    }
    proof {
        assert(cols@.take(cols@.len() as int) =~= cols@);
    }
    out
}

/// The values an image binds for `cols`, exactly as `row_binds` states
/// them: the image's value where the column is bound, `Unset` otherwise.
pub fn binds_for(img: &ColMap, cols: &Vec<String>) -> (r: Vec<ColValue>)
    requires
        img.well_formed(),
    ensures
        bind_views(r@) == row_binds(img@, cols@),
        r@.len() == cols@.len(),
{
    let mut out: Vec<ColValue> = Vec::new();
    let mut i: usize = 0;
    while i < cols.len()
        invariant
            img.well_formed(),
            i <= cols@.len(),
            out@.len() == i,
            bind_views(out@) == row_binds(img@, cols@.take(i as int)),
        decreases cols@.len() - i,
    {
        let ghost pre = bind_views(out@);
        let v = match img.get(&cols[i]) {
            Some(v) => v.duplicate(),
            None => ColValue::Unset,
        };
        out.push(v);
        proof {
            let t = cols@.take(i + 1 as int);
            assert(t.drop_last() =~= cols@.take(i as int));
            assert(t.last() == cols@[i as int]);
            assert(bind_views(out@) =~= pre + seq![bind_model(img@, cols@[i as int]@)]);
        }
        i = i + 1;
    }
    proof {
        assert(cols@.take(cols@.len() as int) =~= cols@);
    }
    out
}

/// The plain insert statement with its column list and bound values, as
/// the external SQL-builder contract words it: `(sql, cols, binds)`.
pub fn get_insert_query(meta: &TbMeta, row: &RowData) -> (r: (String, Vec<String>, Vec<ColValue>))
    requires
        meta.wf(),
        row.well_formed(),
        row.row_type == crate::row_data::RowType::Insert,
    ensures
        r.0@ == insert_sql(*meta),
        r.1@ == meta.cols@,
        bind_views(r.2@) == row_binds(row.after@, meta.cols@),
{
    let mut sql = String::from_str("INSERT INTO ");
    let t = table_name_str(meta);
    sql.append(t.as_str());
    sql.append(" (");
    let qcols = quote_cols(&meta.cols);
    proof {
        assert(views_of(qcols@) =~= quoted_views(meta.cols@));
    }
    let cols_joined = join_strs(&qcols, ",");
    sql.append(cols_joined.as_str());
    sql.append(") VALUES (");
    let phs = ph_list_strs(0, meta.cols.len() as u64);
    let phs_joined = join_strs(&phs, ",");
    sql.append(phs_joined.as_str());
    sql.append(")");
    let cols = dup_cols(&meta.cols);
    let binds = binds_for(&row.after, &meta.cols);
    (sql, cols, binds)
}

/// The single-row update or delete statement for a row, as the external
/// SQL-builder contract words `get_query_info`: updates set every column
/// and locate by id columns; deletes locate by id columns from the before
/// image.
pub fn get_query_info(meta: &TbMeta, row: &RowData) -> (r: Result<
    (String, Vec<String>, Vec<ColValue>),
    crate::error::DtError,
>)
    requires
        meta.wf(),
        row.well_formed(),
    ensures
        match r {
            Ok(parts) => match row.row_type {
                crate::row_data::RowType::Update => {
                    &&& parts.0@ == update_sql(*meta)
                    &&& parts.1@ == meta.cols@ + meta.id_cols@
                    &&& bind_views(parts.2@) == row_binds(row.after@, meta.cols@) + row_binds(
                        row.before@,
                        meta.id_cols@,
                    )
                },
                crate::row_data::RowType::Delete => {
                    &&& parts.0@ == delete_sql(*meta)
                    &&& parts.1@ == meta.id_cols@
                    &&& bind_views(parts.2@) == row_binds(row.before@, meta.id_cols@)
                },
                crate::row_data::RowType::Insert => false,
            },
            Err(e) => e.kind == crate::error::DtErrorKind::SinkExecute && row.row_type
                == crate::row_data::RowType::Insert,
        },
{
    match row.row_type {
        crate::row_data::RowType::Update => {
            let mut sql = String::from_str("UPDATE ");
            let t = table_name_str(meta);
            sql.append(t.as_str());
            sql.append(" SET ");
            let sets = eq_pair_strs(&meta.cols, 0);
            let sets_joined = join_strs(&sets, ",");
            sql.append(sets_joined.as_str());
            sql.append(" WHERE ");
            let wheres = eq_pair_strs(&meta.id_cols, meta.cols.len() as u64);
            let wheres_joined = join_strs(&wheres, " AND ");
            sql.append(wheres_joined.as_str());
            let mut cols = dup_cols(&meta.cols);
            let mut ids = dup_cols(&meta.id_cols);
            cols.append(&mut ids);
            let mut binds = binds_for(&row.after, &meta.cols);
            let mut id_binds = binds_for(&row.before, &meta.id_cols);
            proof {
                assert(bind_views(binds@ + id_binds@) =~= bind_views(binds@) + bind_views(
                    id_binds@,
                ));
            }
            binds.append(&mut id_binds);
            Ok((sql, cols, binds))
        },
        crate::row_data::RowType::Delete => {
            let mut sql = String::from_str("DELETE FROM ");
            let t = table_name_str(meta);
            sql.append(t.as_str());
            sql.append(" WHERE ");
            let wheres = eq_pair_strs(&meta.id_cols, 0);
            let wheres_joined = join_strs(&wheres, " AND ");
            sql.append(wheres_joined.as_str());
            let cols = dup_cols(&meta.id_cols);
            let binds = binds_for(&row.before, &meta.id_cols);
            Ok((sql, cols, binds))
        },
        crate::row_data::RowType::Insert => Err(
            crate::error::DtError::new(crate::error::DtErrorKind::SinkExecute, String::new()),
        ),
    }
}

} // verus!
