//! What putting a session's chunks together means: the payloads of the chunks
//! that exist, one after the other, by ascending index.

use vstd::prelude::*;
use crate::order::ascending;

verus! {

/// The chunks of one session: payloads by index.
pub type Chunks = Map<usize, Seq<u8>>;

/// Whether no index holds a chunk.
pub open spec fn no_chunks(chunks: Chunks) -> bool {
    forall|i: usize| !chunks.dom().contains(i)
}

/// The payloads of the chunks whose index is below `bound`, joined by
/// ascending index. An index without a chunk adds nothing.
pub open spec fn assembled_below(chunks: Chunks, bound: int) -> Seq<u8>
    decreases bound,
{
    if bound <= 0 {
        Seq::empty()
    } else {
        let rest = assembled_below(chunks, bound - 1);
        if bound - 1 <= usize::MAX && chunks.dom().contains((bound - 1) as usize) {
            rest + chunks[(bound - 1) as usize]
        } else {
            rest
        }
    }
}

/// The assembled artifact: the payload of every chunk, by ascending index.
/// Nothing asks that the indices be contiguous: where a chunk is missing, the
/// artifact goes on with the next one that exists.
pub open spec fn assembled(chunks: Chunks) -> Seq<u8> {
    assembled_below(chunks, usize::MAX + 1)
}

/// The payloads of the chunks that `order` names, joined in that order.
pub open spec fn joined_in(chunks: Chunks, order: Seq<usize>) -> Seq<u8>
    decreases order.len(),
{
    if order.len() == 0 {
        Seq::empty()
    } else {
        joined_in(chunks, order.drop_last()) + chunks[order.last()]
    }
}

/// The chunks that a session holds after a run of writes, the first write
/// first: a write puts its payload in place of what its index held before.
pub open spec fn written(writes: Seq<(usize, Seq<u8>)>) -> Chunks
    decreases writes.len(),
{
    if writes.len() == 0 {
        Map::empty()
    } else {
        written(writes.drop_last()).insert(writes.last().0, writes.last().1)
    }
}

/// Whether the write at position `k` is the last one to its index.
pub open spec fn is_last_write(writes: Seq<(usize, Seq<u8>)>, k: int) -> bool {
    &&& 0 <= k < writes.len()
    &&& forall|j: int| k < j < writes.len() ==> (#[trigger] writes[j]).0 != writes[k].0
}

/// Indices without a chunk add nothing to the assembled bytes.
pub proof fn lemma_assembled_gap(chunks: Chunks, from: int, to: int)
    requires
        from <= to,
        forall|i: usize| from <= i < to ==> !chunks.dom().contains(i),
    ensures
        assembled_below(chunks, to) == assembled_below(chunks, from),
    decreases to - from,
{
    if from < to {
        lemma_assembled_gap(chunks, from, to - 1);
        if 0 <= to - 1 <= usize::MAX {
            assert(!chunks.dom().contains((to - 1) as usize));
        }
    }
}

/// The assembled bytes are the payloads joined by ascending index: for the
/// ascending run `order` of all indices that have a chunk, assembling gives
/// the payloads joined in that order.
pub proof fn lemma_assembled_in_ascending_order(chunks: Chunks, order: Seq<usize>)
    requires
        ascending(order),
        forall|i: usize| order.contains(i) <==> chunks.dom().contains(i),
    ensures
        assembled(chunks) == joined_in(chunks, order),
{
    lemma_joined_prefix(chunks, order, order.len() as int);
    let from: int = if order.len() == 0 {
        0
    } else {
        order.last() + 1
    };
    assert(order.take(order.len() as int) =~= order);
    assert forall|i: usize| from <= i implies !chunks.dom().contains(i) by {
        if order.contains(i) {
            let k = choose|k: int| 0 <= k < order.len() && order[k] == i;
            assert(order[k] <= order.last());
        }
    }
    lemma_assembled_gap(chunks, from, usize::MAX + 1);
}

/// A prefix of the ascending run of indices gives the bytes assembled below
/// the index that follows its last.
proof fn lemma_joined_prefix(chunks: Chunks, order: Seq<usize>, n: int)
    requires
        ascending(order),
        forall|i: usize| order.contains(i) <==> chunks.dom().contains(i),
        0 <= n <= order.len(),
    ensures
        joined_in(chunks, order.take(n)) == assembled_below(
            chunks,
            if n == 0 {
                0
            } else {
                order[n - 1] + 1
            },
        ),
    decreases n,
{
    if n > 0 {
        lemma_joined_prefix(chunks, order, n - 1);
        let from: int = if n == 1 {
            0
        } else {
            order[n - 2] + 1
        };
        let at = order[n - 1];
        assert(order.take(n).drop_last() =~= order.take(n - 1));
        assert(order.take(n).last() == at);
        assert(order.contains(at));
        assert(from <= at) by {
            if n > 1 {
                assert(order[n - 2] < order[n - 1]);
            }
        }
        assert forall|i: usize| from <= i < at implies !chunks.dom().contains(i) by {
            if order.contains(i) {
                let k = choose|k: int| 0 <= k < order.len() && order[k] == i;
                if k < n - 1 {
                    if k < n - 2 {
                        assert(order[k] < order[n - 2]);
                    }
                } else if k > n - 1 {
                    assert(order[n - 1] < order[k]);
                }
            }
        }
        lemma_assembled_gap(chunks, from, at as int);
    }
}

/// After a run of writes an index holds a chunk exactly if a write went to it,
/// and what it holds is the payload of the last write that did.
pub proof fn lemma_last_write_wins(writes: Seq<(usize, Seq<u8>)>, k: int)
    requires
        is_last_write(writes, k),
    ensures
        written(writes).dom().contains(writes[k].0),
        written(writes)[writes[k].0] == writes[k].1,
    decreases writes.len(),
{
    if k < writes.len() - 1 {
        let shorter = writes.drop_last();
        assert(writes.last() == writes[writes.len() - 1]);
        assert forall|j: int| k < j < shorter.len() implies (#[trigger] shorter[j]).0
            != shorter[k].0 by {
            assert(shorter[j] == writes[j]);
        }
        lemma_last_write_wins(shorter, k);
    }
}

/// An index to which no write went holds no chunk.
pub proof fn lemma_unwritten_index_is_empty(writes: Seq<(usize, Seq<u8>)>, index: usize)
    requires
        forall|j: int| 0 <= j < writes.len() ==> (#[trigger] writes[j]).0 != index,
    ensures
        !written(writes).dom().contains(index),
    decreases writes.len(),
{
    if writes.len() > 0 {
        let shorter = writes.drop_last();
        assert(writes.last() == writes[writes.len() - 1]);
        assert forall|j: int| 0 <= j < shorter.len() implies (#[trigger] shorter[j]).0 != index by {
            assert(shorter[j] == writes[j]);
        }
        lemma_unwritten_index_is_empty(shorter, index);
    }
}

/// Every index that holds a chunk after a run of writes has a last write.
pub proof fn lemma_written_has_last_write(writes: Seq<(usize, Seq<u8>)>, index: usize) -> (k: int)
    requires
        written(writes).dom().contains(index),
    ensures
        is_last_write(writes, k),
        writes[k].0 == index,
    decreases writes.len(),
{
    if writes.len() == 0 {
        0
    } else if writes.last().0 == index {
        writes.len() - 1
    } else {
        let shorter = writes.drop_last();
        let k = lemma_written_has_last_write(shorter, index);
        assert(shorter[k] == writes[k]);
        assert forall|j: int| k < j < writes.len() implies (#[trigger] writes[j]).0 != writes[k].0 by {
            if j < shorter.len() {
                assert(shorter[j] == writes[j]);
            }
        }
        k
    }
}

/// The order in which chunks arrive does not show in the assembled bytes: two
/// runs of writes in which the last write to each index carries the same
/// payload assemble to the same bytes.
pub proof fn lemma_arrival_order_is_immaterial(
    first: Seq<(usize, Seq<u8>)>,
    second: Seq<(usize, Seq<u8>)>,
)
    requires
        forall|k: int|
            is_last_write(first, k) ==> exists|j: int|
                is_last_write(second, j) && #[trigger] second[j] == first[k],
        forall|j: int|
            is_last_write(second, j) ==> exists|k: int|
                is_last_write(first, k) && #[trigger] first[k] == second[j],
    ensures
        written(first) == written(second),
        assembled(written(first)) == assembled(written(second)),
{
    let a = written(first);
    let b = written(second);
    assert forall|i: usize| #[trigger] a.dom().contains(i) implies b.dom().contains(i) && a[i]
        == b[i] by {
        let k = lemma_written_has_last_write(first, i);
        lemma_last_write_wins(first, k);
        let j = choose|j: int| is_last_write(second, j) && #[trigger] second[j] == first[k];
        lemma_last_write_wins(second, j);
    }
    assert forall|i: usize| #[trigger] b.dom().contains(i) implies a.dom().contains(i) by {
        let j = lemma_written_has_last_write(second, i);
        lemma_last_write_wins(second, j);
        let k = choose|k: int| is_last_write(first, k) && #[trigger] first[k] == second[j];
        lemma_last_write_wins(first, k);
    }
    assert(a =~= b);
}

/// What a session assembles to after any run of writes: the payloads joined
/// by ascending index, where each index gives the payload of the last write
/// that went to it. `order` is the ascending run of the indices written to.
pub proof fn lemma_writes_assemble_by_index(writes: Seq<(usize, Seq<u8>)>, order: Seq<usize>)
    requires
        ascending(order),
        forall|i: usize|
            order.contains(i) <==> exists|k: int|
                0 <= k < writes.len() && (#[trigger] writes[k]).0 == i,
    ensures
        assembled(written(writes)) == joined_in(written(writes), order),
        forall|k: int|
            is_last_write(writes, k) ==> written(writes).dom().contains((#[trigger] writes[k]).0)
                && written(writes)[writes[k].0] == writes[k].1,
{
    let chunks = written(writes);
    assert forall|i: usize| order.contains(i) <==> chunks.dom().contains(i) by {
        if chunks.dom().contains(i) {
            let k = lemma_written_has_last_write(writes, i);
        }
        if order.contains(i) && !chunks.dom().contains(i) {
            let k = choose|k: int| 0 <= k < writes.len() && (#[trigger] writes[k]).0 == i;
            let last = lemma_some_write_is_last(writes, k);
            lemma_last_write_wins(writes, last);
        }
    }
    lemma_assembled_in_ascending_order(chunks, order);
    assert forall|k: int| is_last_write(writes, k) implies written(writes).dom().contains(
        (#[trigger] writes[k]).0,
    ) && written(writes)[writes[k].0] == writes[k].1 by {
        lemma_last_write_wins(writes, k);
    }
}

/// Every index that a write goes to has a last write.
proof fn lemma_some_write_is_last(writes: Seq<(usize, Seq<u8>)>, k: int) -> (last: int)
    requires
        0 <= k < writes.len(),
    ensures
        is_last_write(writes, last),
        writes[last].0 == writes[k].0,
    decreases writes.len() - k,
{
    if exists|j: int| k < j < writes.len() && (#[trigger] writes[j]).0 == writes[k].0 {
        let j = choose|j: int| k < j < writes.len() && (#[trigger] writes[j]).0 == writes[k].0;
        lemma_some_write_is_last(writes, j)
    } else {
        k
    }
}

} // verus!
