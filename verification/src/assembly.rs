//! How chunks written at their offsets add up to the object.
use vstd::prelude::*;

use crate::chunk::PendingWrite;
use crate::ranges::{chunk_ranges, law_ranges_partition, ByteRange};

verus! {

/// What a file holds after `bytes` were written from `offset` on.  A write past
/// the end makes the file longer.
pub open spec fn write_at(file: Seq<u8>, offset: int, bytes: Seq<u8>) -> Seq<u8> {
    if bytes.len() == 0 {
        file
    } else {
        let end = offset + bytes.len();
        Seq::new(
            if end > file.len() {
                end as nat
            } else {
                file.len()
            },
            |i: int|
                if offset <= i < end {
                    bytes[i - offset]
                } else if i < file.len() {
                    file[i]
                } else {
                    0
                },
        )
    }
}

/// What a file holds after a list of writes, done in order.
pub open spec fn after_writes(file: Seq<u8>, writes: Seq<PendingWrite>) -> Seq<u8>
    decreases writes.len(),
{
    if writes.len() == 0 {
        file
    } else {
        write_at(
            after_writes(file, writes.drop_last()),
            writes.last().offset as int,
            writes.last().bytes@,
        )
    }
}

/// A file of `total` bytes as it is before anything was written.
pub open spec fn blank(total: nat) -> Seq<u8> {
    Seq::new(total, |i: int| 0)
}

/// The part of `body` that a range asks for.
pub open spec fn part(body: Seq<u8>, range: ByteRange) -> Seq<u8> {
    body.subrange(range.start as int, range.end + 1)
}

/// `write` puts the part of `body` that `range` asks for where it belongs.
pub open spec fn writes_part(write: PendingWrite, body: Seq<u8>, range: ByteRange) -> bool {
    write.offset == range.start && write.bytes@ == part(body, range)
}

/// After some of the parts were written, the file has its full size, and holds
/// the object wherever one of these parts reaches.
proof fn lemma_written_parts(
    body: Seq<u8>,
    ranges: Seq<ByteRange>,
    order: Seq<int>,
    writes: Seq<PendingWrite>,
)
    requires
        forall|i: int|
            0 <= i < ranges.len() ==> (#[trigger] ranges[i]).start <= ranges[i].end < body.len(),
        writes.len() == order.len(),
        forall|k: int| 0 <= k < order.len() ==> 0 <= #[trigger] order[k] < ranges.len(),
        forall|k: int|
            0 <= k < order.len() ==> writes_part(#[trigger] writes[k], body, ranges[order[k]]),
    ensures
        after_writes(blank(body.len()), writes).len() == body.len(),
        forall|at: int, k: int|
            0 <= k < order.len() && (#[trigger] ranges[order[k]]).holds(at) ==> (
            #[trigger] after_writes(blank(body.len()), writes)[at]) == body[at],
    decreases writes.len(),
{
    if writes.len() > 0 {
        let before = writes.drop_last();
        let order_before = order.drop_last();
        assert forall|k: int| 0 <= k < order_before.len() implies writes_part(
            #[trigger] before[k],
            body,
            ranges[order_before[k]],
        ) by {
            assert(before[k] == writes[k]);
        }
        lemma_written_parts(body, ranges, order_before, before);
        let last = order.len() - 1;
        let range = ranges[order[last]];
        let old_file = after_writes(blank(body.len()), before);
        let file = after_writes(blank(body.len()), writes);
        assert(writes_part(writes[last], body, range));
        assert(file == write_at(old_file, range.start as int, part(body, range)));
        assert forall|at: int, k: int|
            0 <= k < order.len() && (#[trigger] ranges[order[k]]).holds(at) implies (
        #[trigger] file[at]) == body[at] by {
            if range.holds(at) {
                assert(part(body, range)[at - range.start] == body[at]);
            } else {
                assert(k < last);
                assert(order_before[k] == order[k]);
                assert(ranges[order_before[k]].holds(at));
                assert(old_file[at] == body[at]);
            }
        }
    }
}

/// Chunks may be fetched and written in any order: once every chunk of an object
/// was written at its offset into a blank file of the object's size, the file
/// holds the object.  `order` lists the chunks in the order of the writes.
pub proof fn law_chunks_assemble(
    body: Seq<u8>,
    chunk_size: u64,
    order: Seq<int>,
    writes: Seq<PendingWrite>,
)
    requires
        chunk_size > 0,
        body.len() <= u64::MAX,
        writes.len() == order.len(),
        forall|k: int|
            0 <= k < order.len() ==> 0 <= #[trigger] order[k] < chunk_ranges(
                body.len() as int,
                chunk_size as int,
            ).len(),
        forall|i: int|
            0 <= i < chunk_ranges(body.len() as int, chunk_size as int).len()
                ==> #[trigger] order.contains(i),
        forall|k: int|
            0 <= k < order.len() ==> writes_part(
                #[trigger] writes[k],
                body,
                chunk_ranges(body.len() as int, chunk_size as int)[order[k]],
            ),
    ensures
        after_writes(blank(body.len()), writes) == body,
{
    let total = body.len() as u64;
    let ranges = chunk_ranges(body.len() as int, chunk_size as int);
    crate::ranges::law_range_sizes(total, chunk_size);
    assert forall|i: int| 0 <= i < ranges.len() implies (#[trigger] ranges[i]).start
        <= ranges[i].end < body.len() by {
        assert(ranges[i].size() > 0);
        assert(ranges[i].holds(ranges[i].end as int));
        law_ranges_partition(total, chunk_size, ranges[i].end as int);
    }
    lemma_written_parts(body, ranges, order, writes);
    let file = after_writes(blank(body.len()), writes);
    assert forall|at: int| 0 <= at < body.len() implies file[at] == body[at] by {
        law_ranges_partition(total, chunk_size, at);
        let i = choose|i: int| 0 <= i < ranges.len() && (#[trigger] ranges[i]).holds(at);
        assert(order.contains(i));
        let k = choose|k: int| 0 <= k < order.len() && order[k] == i;
        assert(ranges[order[k]].holds(at));
    }
    assert(file =~= body);
}

/// Two different chunks do not get in each other's way: written one after the
/// other, they leave the same file in either order.
pub proof fn law_chunk_writes_commute(
    file: Seq<u8>,
    body: Seq<u8>,
    chunk_size: u64,
    i: int,
    j: int,
    a: PendingWrite,
    b: PendingWrite,
)
    requires
        chunk_size > 0,
        body.len() <= u64::MAX,
        file.len() == body.len(),
        0 <= i < chunk_ranges(body.len() as int, chunk_size as int).len(),
        0 <= j < chunk_ranges(body.len() as int, chunk_size as int).len(),
        i != j,
        writes_part(a, body, chunk_ranges(body.len() as int, chunk_size as int)[i]),
        writes_part(b, body, chunk_ranges(body.len() as int, chunk_size as int)[j]),
    ensures
        after_writes(file, seq![a, b]) == after_writes(file, seq![b, a]),
{
    let total = body.len() as u64;
    let ranges = chunk_ranges(body.len() as int, chunk_size as int);
    crate::ranges::law_range_sizes(total, chunk_size);
    assert(ranges[i].size() > 0 && ranges[j].size() > 0);
    assert(ranges[i].holds(ranges[i].end as int));
    assert(ranges[j].holds(ranges[j].end as int));
    law_ranges_partition(total, chunk_size, ranges[i].end as int);
    law_ranges_partition(total, chunk_size, ranges[j].end as int);
    assert forall|at: int| ranges[i].holds(at) implies !ranges[j].holds(at) by {
        law_ranges_partition(total, chunk_size, at);
    }
    reveal_with_fuel(after_writes, 3);
    assert(seq![a, b].drop_last() =~= seq![a]);
    assert(seq![b, a].drop_last() =~= seq![b]);
    assert(seq![a].drop_last() =~= Seq::<PendingWrite>::empty());
    assert(seq![b].drop_last() =~= Seq::<PendingWrite>::empty());
    assert(after_writes(file, seq![a, b]) =~= after_writes(file, seq![b, a]));
}

} // verus!
