use vstd::prelude::*;

use crate::dt_data::DtItem;
use crate::dt_queue::DtQueue;
use crate::error::DtError;
use crate::row_data::RowData;

verus! {

/// The concatenation of a list of partitions, in partition order.
pub open spec fn concat_all(parts: Seq<Seq<RowData>>) -> Seq<RowData>
    decreases parts.len(),
{
    if parts.len() == 0 {
        Seq::empty()
    } else {
        concat_all(parts.drop_last()) + parts.last()
    }
}

/// The views of the partition vectors.
pub open spec fn part_views(parts: Seq<Vec<RowData>>) -> Seq<Seq<RowData>> {
    parts.map_values(|v: Vec<RowData>| v@)
}

/// What the consumer loop should do with a drained batch.
#[derive(Clone, Copy, Debug, PartialEq, Eq, Structural)]
pub enum ConsumerAction {
    /// Route the batch to the sinkers.
    Sink,
    /// Nothing drained and the producer is done: leave the loop.
    Exit,
    /// Nothing drained but the producer is still at work: wait and drain
    /// again.
    Wait,
}

/// The snapshot parallelizer: it drains the transfer queue in batches and
/// splits a DML batch into at most `parallel_size` contiguous partitions,
/// preserving source order inside each partition. It deliberately does not
/// shard by key: snapshot inserts must not observe key-based
/// cross-partition ordering.
pub struct SnapshotParallelizer {
    pub parallel_size: usize,
}

impl SnapshotParallelizer {
    /// Drain up to the given caps from the queue, in FIFO order, stopping
    /// early only on an empty queue or a reached budget.
    pub fn drain(&self, buffer: &mut DtQueue, max_items: usize, max_bytes: u64) -> (r: Vec<DtItem>)
        requires
            old(buffer).wf(),
        ensures
            final(buffer).wf(),
            final(buffer).item_cap() == old(buffer).item_cap(),
            final(buffer).byte_cap() == old(buffer).byte_cap(),
            r@.len() <= max_items,
            r@ == old(buffer)@.take(r@.len() as int),
            final(buffer)@ == old(buffer)@.skip(r@.len() as int),
    {
        buffer.drain(max_items, max_bytes)
    }

    /// Split a batch into at most `parallel_size` contiguous partitions
    /// whose concatenation, in partition index order, is exactly the
    /// input; each partition holds at most `len/P + 1` rows. With
    /// parallelism of one (or none) the batch stays whole.
    pub fn partition(data: Vec<RowData>, parallel_size: usize) -> (r: Result<
        Vec<Vec<RowData>>,
        DtError,
    >)
        ensures
            match r {
                Ok(parts) => {
                    &&& concat_all(part_views(parts@)) == data@
                    &&& (parallel_size <= 1 ==> parts@.len() == 1 && parts@[0]@ == data@)
                    &&& (parallel_size > 1 ==> {
                        &&& parts@.len() == parallel_size
                        &&& forall|k: int|
                            0 <= k < parts@.len() ==> (#[trigger] parts@[k])@.len() <= data@.len()
                                as int / parallel_size as int + 1
                        &&& forall|k: int|
                            1 <= k < parts@.len() ==> ((#[trigger] parts@[k])@.len() > 0
                                ==> parts@[k - 1]@.len() == data@.len() as int
                                / parallel_size as int + 1)
                    })
                },
                Err(_) => false,
            },
    {
        let mut parts: Vec<Vec<RowData>> = Vec::new();
        if parallel_size <= 1 {
            let ghost dv = data@;
            parts.push(data);
            proof {
                assert(part_views(parts@) =~= seq![dv]);
                assert(part_views(parts@).len() == 1);
                assert(part_views(parts@).last() == dv);
                assert(part_views(parts@).drop_last() =~= Seq::<Seq<RowData>>::empty());
                assert(concat_all(Seq::<Seq<RowData>>::empty()) =~= Seq::<RowData>::empty());
                assert(concat_all(part_views(parts@)) == concat_all(
                    part_views(parts@).drop_last(),
                ) + part_views(parts@).last());
                assert(Seq::<RowData>::empty() + dv =~= dv);
            }
            return Ok(parts);
        }
        let total = data.len();
        proof {
            if total == 0 {
                vstd::arithmetic::div_mod::lemma_div_basics_1(parallel_size as int);
            } else {
                vstd::arithmetic::div_mod::lemma_div_is_ordered_by_denominator(
                    total as int,
                    2,
                    parallel_size as int,
                );
                vstd::arithmetic::div_mod::lemma_div_decreases(total as int, 2);
            }
        }
        let avg: usize = total / parallel_size + 1;
        let ghost dv = data@;
        let mut rest = data;
        let mut i: usize = 0;
        let mut cur: Vec<RowData> = Vec::new();
        proof {
            assert(concat_all(part_views(parts@)) + cur@ =~= dv.take(0));
        }
        // rows are taken from the front; `cur` fills up to `avg` and is
        // then sealed as the next partition
        while i < total
            invariant
                parallel_size > 1,
                total == dv.len(),
                avg == total as int / parallel_size as int + 1,
                i <= total,
                rest@ == dv.skip(i as int),
                cur@.len() <= avg,
                concat_all(part_views(parts@)) + cur@ == dv.take(i as int),
                parts@.len() * avg + cur@.len() == i,
                forall|k: int| 0 <= k < parts@.len() ==> (#[trigger] parts@[k])@.len() == avg,
                parts@.len() <= parallel_size,
            decreases total - i,
        {
            let ghost pre_parts = parts@;
            let ghost pre_cur = cur@;
            if cur.len() == avg {
                proof {
                    assert(parts@.len() * avg + avg <= total) by (nonlinear_arith)
                        requires
                            parts@.len() * avg + cur@.len() == i,
                            cur@.len() == avg,
                            i <= total;
                    assert((parts@.len() + 1) * avg <= total) by (nonlinear_arith)
                        requires
                            parts@.len() * avg + avg <= total;
                    assert(total < parallel_size * avg) by (nonlinear_arith)
                        requires
                            avg == total as int / parallel_size as int + 1,
                            parallel_size > 1,
                            total >= 0;
                    assert(parts@.len() + 1 < parallel_size) by (nonlinear_arith)
                        requires
                            (parts@.len() + 1) * avg <= total,
                            total < parallel_size * avg,
                            avg > 0;
                }
                parts.push(cur);
                cur = Vec::new();
                proof {
                    assert(part_views(parts@) =~= part_views(pre_parts).push(pre_cur));
                    assert(part_views(parts@).drop_last() =~= part_views(pre_parts));
                    assert(part_views(parts@).last() == pre_cur);
                    assert(concat_all(part_views(parts@)) =~= concat_all(part_views(pre_parts))
                        + pre_cur);
                    assert((pre_parts.len() + 1) * avg == pre_parts.len() * avg + avg)
                        by (nonlinear_arith);
                    assert(concat_all(part_views(parts@)) + cur@ =~= dv.take(i as int));
                }
            }
            let row = rest.remove(0);
            proof {
                assert(dv.skip(i as int)[0] == dv[i as int]);
                assert(dv.skip(i as int).remove(0) =~= dv.skip(i + 1 as int));
            }
            cur.push(row);
            proof {
                assert(dv.take(i + 1 as int) =~= dv.take(i as int).push(dv[i as int]));
                assert(concat_all(part_views(parts@)) + cur@ =~= dv.take(i + 1 as int));
            }
            i = i + 1;
        }
        let ghost pre_parts = parts@;
        let ghost pre_cur = cur@;
        proof {
            assert(total < parallel_size * avg) by (nonlinear_arith)
                requires
                    avg == total as int / parallel_size as int + 1,
                    parallel_size > 1,
                    total >= 0;
            assert(parts@.len() < parallel_size) by (nonlinear_arith)
                requires
                    parts@.len() * avg + cur@.len() == total,
                    total < parallel_size * avg,
                    avg > 0,
                    cur@.len() <= avg;
        }
        parts.push(cur);
        proof {
            assert(part_views(parts@) =~= part_views(pre_parts).push(pre_cur));
            assert(part_views(parts@).drop_last() =~= part_views(pre_parts));
            assert(part_views(parts@).last() == pre_cur);
            assert(concat_all(part_views(parts@)) =~= concat_all(part_views(pre_parts)) + pre_cur);
            assert(dv.take(total as int) =~= dv);
            assert forall|k: int| 0 <= k < parts@.len() - 1 implies (#[trigger] parts@[k])@.len()
                == avg by {
                assert(parts@[k] == pre_parts[k]);
            }
        }
        // pad with empty partitions so that exactly `parallel_size` come
        // back, as the dispatch indexing expects
        while parts.len() < parallel_size
            invariant
                parallel_size > 1,
                1 <= parts@.len() <= parallel_size,
                concat_all(part_views(parts@)) == dv,
                forall|k: int|
                    0 <= k < parts@.len() ==> (#[trigger] parts@[k])@.len() <= avg,
                forall|k: int|
                    1 <= k < parts@.len() ==> ((#[trigger] parts@[k])@.len() > 0 ==> parts@[k
                        - 1]@.len() == avg),
                avg == total as int / parallel_size as int + 1,
                total == dv.len(),
            decreases parallel_size - parts@.len(),
        {
            let ghost pre = parts@;
            parts.push(Vec::new());
            proof {
                assert(part_views(parts@) =~= part_views(pre).push(Seq::empty()));
                assert(part_views(parts@).drop_last() =~= part_views(pre));
                assert(part_views(parts@).last() =~= Seq::<RowData>::empty());
                assert(concat_all(part_views(parts@)) =~= concat_all(part_views(pre))
                    + Seq::<RowData>::empty());
                assert(concat_all(part_views(pre)) + Seq::<RowData>::empty() =~= concat_all(
                    part_views(pre),
                ));
            }
        }
        Ok(parts)
    }

    /// Which sinker slot a partition goes to: round robin over the
    /// available sinkers.
    pub fn sinker_slot(&self, partition_index: usize, sinker_count: usize) -> (r: usize)
        requires
            sinker_count > 0,
        ensures
            r == partition_index as int % sinker_count as int,
            r < sinker_count,
    {
        partition_index % sinker_count
    }

    /// The consumer side's decision after one drain: sink a non-empty
    /// batch, exit when the queue stayed empty after shutdown, wait
    /// otherwise.
    pub fn consumer_step(&self, batch_len: usize, shut_down: bool) -> (r: ConsumerAction)
        ensures
            r == (if batch_len > 0 {
                ConsumerAction::Sink
            } else if shut_down {
                ConsumerAction::Exit
            } else {
                ConsumerAction::Wait
            }),
    {
        if batch_len > 0 {
            ConsumerAction::Sink
        } else if shut_down {
            ConsumerAction::Exit
        } else {
            ConsumerAction::Wait
        }
    }
}

} // verus!
