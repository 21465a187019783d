use vstd::prelude::*;

use crate::col_value::{cv_size, ColValue, ColValueModel};

verus! {

/// Saturating addition on the byte scale of the queue: sums are capped at
/// `u64::MAX` so that byte accounting is total.
pub open spec fn sat_add(a: nat, b: nat) -> nat {
    if a + b > u64::MAX {
        u64::MAX as nat
    } else {
        a + b
    }
}

/// Exec counterpart of `sat_add` on `u64`.
pub fn sat_add_u64(a: u64, b: u64) -> (r: u64)
    ensures
        r == sat_add(a as nat, b as nat),
{
    if a > u64::MAX - b {
        u64::MAX
    } else {
        a + b
    }
}

/// The abstract map held by a sequence of column/value entries: later
/// entries win, though the well-formedness invariant keeps keys unique.
pub open spec fn map_of(entries: Seq<(String, ColValue)>) -> Map<Seq<char>, ColValueModel>
    decreases entries.len(),
{
    if entries.len() == 0 {
        Map::empty()
    } else {
        map_of(entries.drop_last()).insert(entries.last().0@, entries.last().1@)
    }
}

/// The byte cost of a sequence of entries: a flat eight bytes per column
/// name plus the value payload, summed with saturation.
pub open spec fn entries_size(entries: Seq<(String, ColValue)>) -> nat
    decreases entries.len(),
{
    if entries.len() == 0 {
        0
    } else {
        sat_add(entries_size(entries.drop_last()), sat_add(8, cv_size(entries.last().1@)))
    }
}

/// An ordered column/value map with unique keys. It backs the `before`
/// and `after` images of a row; its view is the abstract `Map` from
/// column name to value model.
#[derive(Debug)]
pub struct ColMap {
    pub entries: Vec<(String, ColValue)>,
}

impl View for ColMap {
    type V = Map<Seq<char>, ColValueModel>;

    open spec fn view(&self) -> Map<Seq<char>, ColValueModel> {
        map_of(self.entries@)
    }
}

/// No two entries share a key.
pub open spec fn unique_keys(entries: Seq<(String, ColValue)>) -> bool {
    forall|i: int, j: int|
        0 <= i < entries.len() && 0 <= j < entries.len() && i != j ==> entries[i].0@
            != entries[j].0@
}

proof fn lemma_map_of_contains(entries: Seq<(String, ColValue)>, k: Seq<char>)
    ensures
        map_of(entries).contains_key(k) <==> exists|i: int|
            0 <= i < entries.len() && entries[i].0@ == k,
    decreases entries.len(),
{
    if entries.len() > 0 {
        lemma_map_of_contains(entries.drop_last(), k);
        if entries.last().0@ == k {
            assert(entries[entries.len() - 1].0@ == k);
        } else {
            if map_of(entries).contains_key(k) {
                let i = choose|i: int|
                    0 <= i < entries.drop_last().len() && entries.drop_last()[i].0@ == k;
                assert(entries[i].0@ == k);
            }
            if exists|i: int| 0 <= i < entries.len() && entries[i].0@ == k {
                let i = choose|i: int| 0 <= i < entries.len() && entries[i].0@ == k;
                assert(entries.drop_last()[i].0@ == k);
            }
        }
    }
}

proof fn lemma_map_of_index(entries: Seq<(String, ColValue)>, i: int)
    requires
        unique_keys(entries),
        0 <= i < entries.len(),
    ensures
        map_of(entries).contains_key(entries[i].0@),
        map_of(entries)[entries[i].0@] == entries[i].1@,
    decreases entries.len(),
{
    if i == entries.len() - 1 {
    } else {
        assert(unique_keys(entries.drop_last()));
        lemma_map_of_index(entries.drop_last(), i);
        assert(entries.drop_last()[i] == entries[i]);
        assert(entries[i].0@ != entries.last().0@);
    }
}

impl ColMap {
    /// The well-formedness invariant: keys are unique.
    pub open spec fn well_formed(&self) -> bool {
        unique_keys(self.entries@)
    }

    /// An empty map.
    pub fn new() -> (r: ColMap)
        ensures
            r.well_formed(),
            r@ == Map::<Seq<char>, ColValueModel>::empty(),
    {
        ColMap { entries: Vec::new() }
    }

    /// Bind `col` to `val`; the column must not be bound yet.
    pub fn insert(&mut self, col: String, val: ColValue)
        requires
            old(self).well_formed(),
            !old(self)@.contains_key(col@),
        ensures
            final(self).well_formed(),
            final(self)@ == old(self)@.insert(col@, val@),
    {
        proof {
            lemma_map_of_contains(self.entries@, col@);
        }
        self.entries.push((col, val));
        proof {
            assert(self.entries@.drop_last() =~= old(self).entries@);
        }
    }

    /// Look a column up. The result matches the abstract map exactly.
    pub fn get(&self, col: &String) -> (r: Option<&ColValue>)
        requires
            self.well_formed(),
        ensures
            match r {
                Some(v) => self@.contains_key(col@) && v@ == self@[col@],
                None => !self@.contains_key(col@),
            },
    {
        let mut i: usize = 0;
        while i < self.entries.len()
            invariant
                self.well_formed(),
                i <= self.entries@.len(),
                forall|j: int| 0 <= j < i ==> self.entries@[j].0@ != col@,
            decreases self.entries@.len() - i,
        {
            if self.entries[i].0 == *col {
                proof {
                    lemma_map_of_index(self.entries@, i as int);
                }
                return Some(&self.entries[i].1);
            }
            i = i + 1;
        }
        proof {
            lemma_map_of_contains(self.entries@, col@);
        }
        None
    }

    /// Whether no column is bound.
    pub fn is_empty(&self) -> (r: bool)
        ensures
            r == (self@.dom() =~= Set::<Seq<char>>::empty()),
    {
        proof {
            if self.entries@.len() == 0 {
            } else {
                lemma_map_of_contains(self.entries@, self.entries@.last().0@);
                assert(self.entries@[self.entries@.len() - 1].0@ == self.entries@.last().0@);
                assert(map_of(self.entries@).contains_key(self.entries@.last().0@));
            }
        }
        self.entries.len() == 0
    }

    /// The number of bound columns.
    pub fn entry_count(&self) -> (r: usize)
        ensures
            r == self.entries@.len(),
    {
        self.entries.len()
    }

    /// Byte cost of the whole map, with saturation.
    pub fn byte_size(&self) -> (r: u64)
        ensures
            r == entries_size(self.entries@),
    {
        let mut acc: u64 = 0;
        let mut i: usize = 0;
        while i < self.entries.len()
            invariant
                i <= self.entries@.len(),
                acc == entries_size(self.entries@.subrange(0, i as int)),
            decreases self.entries@.len() - i,
        {
            let val_len: u64 = self.entries[i].1.byte_size() as u64;
            let entry_cost = sat_add_u64(8, val_len);
            acc = sat_add_u64(acc, entry_cost);
            proof {
                let pre = self.entries@.subrange(0, i as int);
                let post = self.entries@.subrange(0, i + 1 as int);
                assert(post.drop_last() =~= pre);
                assert(post.last() == self.entries@[i as int]);
            }
            i = i + 1;
        }
        proof {
            assert(self.entries@.subrange(0, self.entries@.len() as int) =~= self.entries@);
        }
        acc
    }

    /// The size spec of this map, for callers that state byte costs.
    pub open spec fn size_spec(&self) -> nat {
        entries_size(self.entries@)
    }

    /// Exposes the containment fact to callers: a found column is in the
    /// abstract map.
    pub fn contains(&self, col: &String) -> (r: bool)
        requires
            self.well_formed(),
        ensures
            r == self@.contains_key(col@),
    {
        match self.get(col) {
            Some(_) => true,
            None => false,
        }
    }
}

} // verus!
