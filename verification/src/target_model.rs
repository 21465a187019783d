use vstd::prelude::*;

use crate::col_value::ColValueModel;
use crate::rdb_query_builder::row_binds;
use crate::row_data::RowData;

verus! {

/// The abstract state of a target table: each key-column tuple maps to the
/// full row image last written for it.
pub type TargetState = Map<Seq<ColValueModel>, Map<Seq<char>, ColValueModel>>;

/// The key a row lands under: its after-image values over the id columns.
pub open spec fn key_of(row: RowData, ids: Seq<String>) -> Seq<ColValueModel> {
    row_binds(row.after@, ids)
}

/// One upsert: on a key conflict the stored image is replaced whole, as the
/// ON CONFLICT ... DO UPDATE statement leaves the row.
pub open spec fn apply_upsert(state: TargetState, row: RowData, ids: Seq<String>) -> TargetState {
    state.insert(key_of(row, ids), row.after@)
}

/// A whole snapshot batch applied in order.
pub open spec fn apply_all(state: TargetState, rows: Seq<RowData>, ids: Seq<String>) -> TargetState
    decreases rows.len(),
{
    if rows.len() == 0 {
        state
    } else {
        apply_all(apply_upsert(state, rows[0], ids), rows.skip(1), ids)
    }
}

/// Applying a batch equals overlaying the batch's own net effect (the batch
/// applied to an empty target) over the starting state.
proof fn lemma_apply_all_union(state: TargetState, rows: Seq<RowData>, ids: Seq<String>)
    ensures
        apply_all(state, rows, ids) == state.union_prefer_right(
            apply_all(Map::empty(), rows, ids),
        ),
    decreases rows.len(),
{
    if rows.len() == 0 {
        assert(state.union_prefer_right(Map::empty()) =~= state);
    } else {
        let r = rows[0];
        let rest = rows.skip(1);
        lemma_apply_all_union(apply_upsert(state, r, ids), rest, ids);
        lemma_apply_all_union(apply_upsert(Map::empty(), r, ids), rest, ids);
        let m_rest = apply_all(Map::<Seq<ColValueModel>, Map<Seq<char>, ColValueModel>>::empty(), rest, ids);
        assert(apply_upsert(state, r, ids).union_prefer_right(m_rest) =~= state.union_prefer_right(
            apply_upsert(Map::empty(), r, ids).union_prefer_right(m_rest),
        ));
    }
}

/// Idempotence of a completed snapshot: re-running the same batch of
/// upserts against the target it produced leaves that target unchanged.
pub proof fn lemma_snapshot_idempotent(state: TargetState, rows: Seq<RowData>, ids: Seq<String>)
    ensures
        apply_all(apply_all(state, rows, ids), rows, ids) == apply_all(state, rows, ids),
{
    lemma_apply_all_union(state, rows, ids);
    lemma_apply_all_union(apply_all(state, rows, ids), rows, ids);
    let m = apply_all(Map::<Seq<ColValueModel>, Map<Seq<char>, ColValueModel>>::empty(), rows, ids);
    assert(state.union_prefer_right(m).union_prefer_right(m) =~= state.union_prefer_right(m));
}

} // verus!
