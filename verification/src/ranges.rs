//! The byte ranges that a download is split into.
use vstd::arithmetic::div_mod::lemma_fundamental_div_mod;
use vstd::prelude::*;

verus! {

/// A range of bytes; both ends are part of it, as in an HTTP `Range` header.
#[derive(Debug, Clone, Copy, PartialEq, Eq, Structural)]
pub struct ByteRange {
    pub start: u64,
    pub end: u64,
}

impl ByteRange {
    /// The offset `at` lies in the range.
    pub open spec fn holds(self, at: int) -> bool {
        self.start <= at <= self.end
    }

    /// How many bytes the range asks for.
    pub open spec fn size(self) -> int {
        self.end - self.start + 1
    }
}

/// Number of chunks of `chunk` bytes that `total` bytes take: `total / chunk`,
/// rounded up.
pub open spec fn chunk_count(total: int, chunk: int) -> nat {
    if total <= 0 {
        0
    } else {
        ((total - 1) / chunk + 1) as nat
    }
}

/// The `i`-th chunk of an object of `total` bytes: it starts at `i * chunk`, and
/// ends where the next one starts or where the object ends.
pub open spec fn chunk_range(total: int, chunk: int, i: int) -> ByteRange {
    ByteRange {
        start: (i * chunk) as u64,
        end: (if (i + 1) * chunk <= total {
            (i + 1) * chunk - 1
        } else {
            total - 1
        }) as u64,
    }
}

/// All chunks of an object of `total` bytes, in order.
pub open spec fn chunk_ranges(total: int, chunk: int) -> Seq<ByteRange> {
    Seq::new(chunk_count(total, chunk), |i: int| chunk_range(total, chunk, i))
}

/// A chunk starts inside the object exactly if its index is below the count.
proof fn lemma_chunk_count(total: int, chunk: int, i: int)
    requires
        0 < chunk,
        0 <= i,
    ensures
        i < chunk_count(total, chunk) <==> i * chunk < total,
{
    if total > 0 {
        let q = (total - 1) / chunk;
        lemma_fundamental_div_mod(total - 1, chunk);
        assert(q >= 0) by (nonlinear_arith)
            requires
                q == (total - 1) / chunk,
                total > 0,
                chunk > 0,
        ;
        if i <= q {
            assert(i * chunk <= q * chunk) by (nonlinear_arith)
                requires
                    i <= q,
                    chunk > 0,
            ;
            assert(chunk * q == q * chunk) by (nonlinear_arith);
        } else {
            assert(i * chunk >= (q + 1) * chunk) by (nonlinear_arith)
                requires
                    i >= q + 1,
                    chunk > 0,
            ;
            assert((q + 1) * chunk == chunk * q + chunk) by (nonlinear_arith);
        }
    } else {
        assert(i * chunk >= 0) by (nonlinear_arith)
            requires
                i >= 0,
                chunk > 0,
        ;
    }
}

/// Bounds of one chunk, without the casts.
proof fn lemma_chunk_range(total: int, chunk: int, i: int)
    requires
        0 < chunk,
        total <= u64::MAX,
        0 <= i < chunk_count(total, chunk),
    ensures
        chunk_range(total, chunk, i).start == i * chunk,
        chunk_range(total, chunk, i).end == if (i + 1) * chunk <= total {
            (i + 1) * chunk - 1
        } else {
            total - 1
        },
        0 <= i * chunk < total,
        (i + 1) * chunk == i * chunk + chunk,
{
    lemma_chunk_count(total, chunk, i);
    assert((i + 1) * chunk == i * chunk + chunk) by (nonlinear_arith);
    assert(i * chunk >= 0) by (nonlinear_arith)
        requires
            i >= 0,
            chunk > 0,
    ;
}

/// Splits an object of `total` bytes into ranges of `chunk_size` bytes each,
/// the last one possibly shorter.
pub fn byte_ranges(total: u64, chunk_size: u64) -> (ranges: Vec<ByteRange>)
    requires
        chunk_size > 0,
    ensures
        ranges@ == chunk_ranges(total as int, chunk_size as int),
{
    let mut ranges: Vec<ByteRange> = Vec::new();
    let mut start: u64 = 0;
    while start < total
        invariant
            chunk_size > 0,
            start <= total,
            ranges@.len() <= chunk_count(total as int, chunk_size as int),
            start < total ==> start == ranges@.len() * chunk_size,
            start == total ==> ranges@.len() == chunk_count(total as int, chunk_size as int),
            forall|i: int|
                0 <= i < ranges@.len() ==> ranges@[i] == chunk_range(
                    total as int,
                    chunk_size as int,
                    i,
                ),
        decreases total - start,
    {
        let ghost k = ranges@.len() as int;
        let left: u64 = total - start;
        let end: u64 = if left <= chunk_size {
            total - 1
        } else {
            start + (chunk_size - 1)
        };
        ranges.push(ByteRange { start, end });
        start = end + 1;
        proof {
            lemma_chunk_count(total as int, chunk_size as int, k);
            lemma_chunk_range(total as int, chunk_size as int, k);
            lemma_chunk_count(total as int, chunk_size as int, k + 1);
        }
    }
    ranges
}

/// The chunks partition the object: an offset below `total` lies in exactly one
/// chunk, any other in none.
pub proof fn law_ranges_partition(total: u64, chunk_size: u64, at: int)
    requires
        chunk_size > 0,
    ensures
        ({
            let ranges = chunk_ranges(total as int, chunk_size as int);
            &&& 0 <= at < total <==> exists|i: int|
                0 <= i < ranges.len() && (#[trigger] ranges[i]).holds(at)
            &&& forall|i: int, j: int|
                0 <= i < ranges.len() && 0 <= j < ranges.len() && (#[trigger] ranges[i]).holds(at)
                    && (#[trigger] ranges[j]).holds(at) ==> i == j
        }),
{
    let t = total as int;
    let c = chunk_size as int;
    let ranges = chunk_ranges(t, c);
    if 0 <= at < t {
        let i = at / c;
        lemma_fundamental_div_mod(at, c);
        assert(i >= 0) by (nonlinear_arith)
            requires
                i == at / c,
                at >= 0,
                c > 0,
        ;
        assert(c * i == i * c) by (nonlinear_arith);
        assert((i + 1) * c == i * c + c) by (nonlinear_arith);
        lemma_chunk_count(t, c, i);
        lemma_chunk_range(t, c, i);
        assert(ranges[i].holds(at));
    }
    assert forall|i: int| 0 <= i < ranges.len() && (#[trigger] ranges[i]).holds(at) implies 0 <= at
        < t by {
        lemma_chunk_range(t, c, i);
    }
    assert forall|i: int, j: int|
        0 <= i < ranges.len() && 0 <= j < ranges.len() && (#[trigger] ranges[i]).holds(at) && (
        #[trigger] ranges[j]).holds(at) implies i == j by {
        lemma_chunk_range(t, c, i);
        lemma_chunk_range(t, c, j);
        if i < j {
            assert((i + 1) * c <= j * c) by (nonlinear_arith)
                requires
                    i + 1 <= j,
                    c > 0,
            ;
        } else if j < i {
            assert((j + 1) * c <= i * c) by (nonlinear_arith)
                requires
                    j + 1 <= i,
                    c > 0,
            ;
        }
    }
}

/// The chunks follow one another without a gap, from the first byte to the
/// last, and there is none exactly if the object is empty.
pub proof fn law_ranges_contiguous(total: u64, chunk_size: u64)
    requires
        chunk_size > 0,
    ensures
        ({
            let ranges = chunk_ranges(total as int, chunk_size as int);
            &&& ranges.len() == 0 <==> total == 0
            &&& total > 0 ==> ranges[0].start == 0 && ranges.last().end == total - 1
            &&& forall|i: int|
                0 <= i < ranges.len() - 1 ==> (#[trigger] ranges[i]).end + 1 == ranges[i + 1].start
        }),
{
    let t = total as int;
    let c = chunk_size as int;
    let ranges = chunk_ranges(t, c);
    lemma_chunk_count(t, c, 0);
    if total > 0 {
        let n = ranges.len() as int;
        lemma_chunk_range(t, c, 0);
        lemma_chunk_range(t, c, n - 1);
        lemma_chunk_count(t, c, n);
    }
    assert forall|i: int| 0 <= i < ranges.len() - 1 implies (#[trigger] ranges[i]).end + 1
        == ranges[i + 1].start by {
        lemma_chunk_range(t, c, i);
        lemma_chunk_range(t, c, i + 1);
    }
}

/// No request asks for more than a chunk, and every one but the last asks for
/// exactly that.
pub proof fn law_range_sizes(total: u64, chunk_size: u64)
    requires
        chunk_size > 0,
    ensures
        ({
            let ranges = chunk_ranges(total as int, chunk_size as int);
            &&& forall|i: int|
                0 <= i < ranges.len() ==> 0 < (#[trigger] ranges[i]).size() <= chunk_size
            &&& forall|i: int|
                0 <= i < ranges.len() - 1 ==> (#[trigger] ranges[i]).size() == chunk_size
        }),
{
    let t = total as int;
    let c = chunk_size as int;
    let ranges = chunk_ranges(t, c);
    assert forall|i: int| 0 <= i < ranges.len() implies 0 < (#[trigger] ranges[i]).size() <= c by {
        lemma_chunk_range(t, c, i);
    }
    assert forall|i: int| 0 <= i < ranges.len() - 1 implies (#[trigger] ranges[i]).size() == c by {
        lemma_chunk_range(t, c, i);
        lemma_chunk_range(t, c, i + 1);
    }
}

/// There are as many requests as are needed, and no more: one chunk less would
/// not reach the end of the object.
pub proof fn law_request_count(total: u64, chunk_size: u64)
    requires
        chunk_size > 0,
        total > 0,
    ensures
        ({
            let n = chunk_ranges(total as int, chunk_size as int).len() as int;
            (n - 1) * chunk_size < total <= n * chunk_size
        }),
{
    let n = chunk_ranges(total as int, chunk_size as int).len() as int;
    lemma_chunk_count(total as int, chunk_size as int, 0);
    lemma_chunk_count(total as int, chunk_size as int, n - 1);
    lemma_chunk_count(total as int, chunk_size as int, n);
}

} // verus!
