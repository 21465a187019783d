use vstd::prelude::*;

verus! {

/// Whether one of `names` reads `col`.
pub open spec fn name_in(names: Seq<String>, col: Seq<char>) -> bool {
    exists|j: int| 0 <= j < names.len() && names[j]@ == col
}

/// Per-table metadata: the ordered column list, the key columns used for
/// WHERE clauses, and the optional slicing column. Immutable once loaded.
pub struct TbMeta {
    pub schema: String,
    pub tb: String,
    pub cols: Vec<String>,
    pub id_cols: Vec<String>,
    pub order_col: Option<String>,
    pub col_types: Vec<(String, String)>,
}

impl TbMeta {
    /// The metadata invariant: at least one column and one key column,
    /// and column counts small enough that placeholder numbering stays
    /// within machine bounds.
    pub open spec fn wf(&self) -> bool {
        &&& 0 < self.cols@.len() <= 1000000
        &&& 0 < self.id_cols@.len() <= 1000000
    }

    /// Whether `col` is one of the key columns.
    pub fn is_id_col(&self, col: &String) -> (r: bool)
        ensures
            r == name_in(self.id_cols@, col@),
    {
        let mut i: usize = 0;
        while i < self.id_cols.len()
            invariant
                i <= self.id_cols@.len(),
                forall|j: int| 0 <= j < i ==> self.id_cols@[j]@ != col@,
            decreases self.id_cols@.len() - i,
        {
            if self.id_cols[i] == *col {
                return true;
            }
            i = i + 1;
        }
        false
    }
}

/// The non-key columns of `cols`, in order: those whose name is not among
/// `ids`.
pub open spec fn non_keys(cols: Seq<String>, ids: Seq<String>) -> Seq<String>
    decreases cols.len(),
{
    if cols.len() == 0 {
        Seq::empty()
    } else {
        non_keys(cols.drop_last(), ids) + if name_in(ids, cols.last()@) {
            Seq::empty()
        } else {
            seq![cols.last()]
        }
    }
}

impl TbMeta {
    /// The columns that are not key columns, exactly as `non_keys` states
    /// them.
    pub fn non_key_cols(&self) -> (r: Vec<String>)
        ensures
            r@ == non_keys(self.cols@, self.id_cols@),
    {
        let mut out: Vec<String> = Vec::new();
        let mut i: usize = 0;
        while i < self.cols.len()
            invariant
                i <= self.cols@.len(),
                out@ == non_keys(self.cols@.take(i as int), self.id_cols@),
            decreases self.cols@.len() - i,
        {
            proof {
                assert(self.cols@.take(i + 1 as int).drop_last() =~= self.cols@.take(i as int));
                assert(self.cols@.take(i + 1 as int).last() == self.cols@[i as int]);
            }
            if !self.is_id_col(&self.cols[i]) {
                out.push(self.cols[i].clone());
            }
            i = i + 1;
        }
        proof {
            assert(self.cols@.take(self.cols@.len() as int) =~= self.cols@);
        }
        out
    }
}

/// The table-metadata cache: one entry per `(schema, table)`, populated by
/// the caller from catalog queries on a miss and evicted only by DDL
/// invalidation. The single-flight behaviour of concurrent misses is the
/// surrounding runtime's concern; this holds the lookup logic.
pub struct MetaCache {
    pub entries: Vec<TbMeta>,
}

/// Whether an entry for `(schema, tb)` exists in `entries`.
pub open spec fn cache_has(entries: Seq<TbMeta>, schema: Seq<char>, tb: Seq<char>) -> bool {
    exists|i: int|
        0 <= i < entries.len() && entries[i].schema@ == schema && entries[i].tb@ == tb
}

impl MetaCache {
    /// Entries are unique per `(schema, table)` and each is well formed.
    pub open spec fn wf(&self) -> bool {
        &&& forall|i: int, j: int|
            0 <= i < self.entries@.len() && 0 <= j < self.entries@.len() && i != j ==> !(
            self.entries@[i].schema@ == self.entries@[j].schema@ && self.entries@[i].tb@
                == self.entries@[j].tb@)
        &&& forall|i: int| 0 <= i < self.entries@.len() ==> self.entries@[i].wf()
    }

    /// An empty cache.
    pub fn new() -> (r: MetaCache)
        ensures
            r.wf(),
            r.entries@.len() == 0,
    {
        MetaCache { entries: Vec::new() }
    }

    /// Look up the metadata of a table: the cached entry when one exists.
    pub fn get(&self, schema: &String, tb: &String) -> (r: Option<&TbMeta>)
        requires
            self.wf(),
        ensures
            match r {
                Some(m) => m.wf() && m.schema@ == schema@ && m.tb@ == tb@ && cache_has(
                    self.entries@,
                    schema@,
                    tb@,
                ),
                None => !cache_has(self.entries@, schema@, tb@),
            },
    {
        let mut i: usize = 0;
        while i < self.entries.len()
            invariant
                self.wf(),
                i <= self.entries@.len(),
                forall|j: int|
                    0 <= j < i ==> !(self.entries@[j].schema@ == schema@ && self.entries@[j].tb@
                        == tb@),
            decreases self.entries@.len() - i,
        {
            if self.entries[i].schema == *schema && self.entries[i].tb == *tb {
                return Some(&self.entries[i]);
            }
            i = i + 1;
        }
        None
    }

    /// Insert freshly fetched metadata for a table not yet cached.
    pub fn insert(&mut self, meta: TbMeta)
        requires
            old(self).wf(),
            meta.wf(),
            !cache_has(old(self).entries@, meta.schema@, meta.tb@),
        ensures
            final(self).wf(),
            final(self).entries@ == old(self).entries@.push(meta),
            cache_has(final(self).entries@, meta.schema@, meta.tb@),
    {
        self.entries.push(meta);
        proof {
            let es = self.entries@;
            let pre = old(self).entries@;
            assert(es[es.len() - 1] == meta);
            assert forall|i: int, j: int|
                0 <= i < es.len() && 0 <= j < es.len() && i != j implies !(es[i].schema@
                == es[j].schema@ && es[i].tb@ == es[j].tb@) by {
                if i < pre.len() && j < pre.len() {
                    assert(es[i] == pre[i] && es[j] == pre[j]);
                } else if i == pre.len() {
                    assert(es[j] == pre[j]);
                    assert(!(pre[j].schema@ == meta.schema@ && pre[j].tb@ == meta.tb@));
                } else {
                    assert(es[i] == pre[i]);
                    assert(!(pre[i].schema@ == meta.schema@ && pre[i].tb@ == meta.tb@));
                }
            }
        }
    }
}

} // verus!
