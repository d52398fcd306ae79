//! How a file is cut for upload: in one request, or in chunks of the session's chunk size.
use vstd::prelude::*;

verus! {

/// One contiguous byte range of a file, sent as one request of a chunked upload.
#[derive(Debug, Clone, Copy, PartialEq, Eq, Structural)]
pub struct ChunkTask {
    pub index: u64,
    pub offset: u64,
    pub length: u64,
}

/// How a file of a given size is sent.
#[derive(Debug, Clone, Copy, PartialEq, Eq, Structural)]
pub enum TransferPlan {
    /// One request carries the whole file.
    Single,
    /// The file goes in `count` chunks, then a finalize call.
    Chunked { count: u64 },
}

/// The number of chunks of size `c` that cover `s` bytes: `ceil(s / c)`.
pub open spec fn chunk_count(s: nat, c: nat) -> nat
    recommends
        c > 0,
{
    ((s + c - 1) / c as int) as nat
}

/// The length of chunk `i`: the chunk size, or what is left of the file.
pub open spec fn chunk_length(s: nat, c: nat, i: nat) -> nat {
    if s >= (i + 1) * c {
        c
    } else {
        (s - i * c) as nat
    }
}

/// The chunks of a file of `s` bytes, in order.
pub open spec fn chunks_of(s: nat, c: nat) -> Seq<ChunkTask> {
    Seq::new(
        chunk_count(s, c),
        |i: int|
            ChunkTask {
                index: i as u64,
                offset: (i * c) as u64,
                length: chunk_length(s, c, i as nat) as u64,
            },
    )
}

pub open spec fn plan_of(s: nat, c: nat) -> TransferPlan {
    if s <= c {
        TransferPlan::Single
    } else {
        TransferPlan::Chunked { count: chunk_count(s, c) as u64 }
    }
}

pub open spec fn total_length(tasks: Seq<ChunkTask>) -> nat
    decreases tasks.len(),
{
    if tasks.len() == 0 {
        0
    } else {
        total_length(tasks.drop_last()) + tasks.last().length as nat
    }
}

proof fn lemma_chunk_count_bounds(s: nat, c: nat)
    requires
        c > 0,
    ensures
        chunk_count(s, c) * c >= s,
        chunk_count(s, c) <= s,
        s > 0 ==> (chunk_count(s, c) - 1) * c < s,
        s == 0 ==> chunk_count(s, c) == 0,
{
    let n = chunk_count(s, c);
    assert(n == (s + c - 1) / (c as int));
    assert(n * c >= s) by (nonlinear_arith)
        requires
            n == (s + c - 1) / (c as int),
            c > 0,
    ;
    if s > 0 {
        assert((n - 1) * c < s) by (nonlinear_arith)
            requires
                n == (s + c - 1) / (c as int),
                c > 0,
                s > 0,
        ;
        assert(n <= s) by (nonlinear_arith)
            requires
                (n - 1) * c < s,
                c > 0,
                s > 0,
        ;
    } else {
        assert(n == 0) by (nonlinear_arith)
            requires
                n == (c - 1) / (c as int),
                c > 0,
        ;
    }
}

proof fn lemma_chunk_length_bounded(s: nat, c: nat, i: nat)
    requires
        c > 0,
        i * c < s,
    ensures
        0 < chunk_length(s, c, i) <= s,
{
    assert((i + 1) * c == i * c + c) by (nonlinear_arith);
}

proof fn lemma_prefix_total(s: nat, c: nat, k: nat)
    requires
        c > 0,
        k <= chunk_count(s, c),
        s <= u64::MAX,
    ensures
        total_length(chunks_of(s, c).take(k as int)) == if s >= k * c {
            k * c
        } else {
            s
        },
    decreases k,
{
    lemma_chunk_count_bounds(s, c);
    if k > 0 {
        let t = chunks_of(s, c).take(k as int);
        assert(t.drop_last() =~= chunks_of(s, c).take(k - 1));
        lemma_prefix_total(s, c, (k - 1) as nat);
        assert((k - 1) * c < s) by (nonlinear_arith)
            requires
                k <= chunk_count(s, c),
                (chunk_count(s, c) - 1) * c < s,
                c > 0,
                k > 0,
        ;
        assert(s >= (k - 1) * c);
        assert(k * c == (k - 1) * c + c) by (nonlinear_arith);
        lemma_chunk_length_bounded(s, c, (k - 1) as nat);
        assert(((k - 1) as nat + 1) * c == k * c);
        assert(t.last() == chunks_of(s, c)[k - 1]);
        assert(t.last().length as nat == chunk_length(s, c, (k - 1) as nat));
        assert(total_length(t) == total_length(t.drop_last()) + t.last().length as nat);
    } else {
        assert(chunks_of(s, c).take(0) =~= Seq::<ChunkTask>::empty());
    }
}

/// Cutting a file of `s` bytes into chunks of `c` bytes gives `ceil(s / c)` chunks, numbered
/// from 0 in order, each starting where the one before ended; their lengths add up to `s`, and
/// every chunk but the last is exactly `c` bytes long.
pub proof fn lemma_chunks_partition(s: nat, c: nat)
    requires
        c > 0,
        s <= u64::MAX,
    ensures
        chunks_of(s, c).len() == chunk_count(s, c),
        total_length(chunks_of(s, c)) == s,
        forall|i: int|
            0 <= i < chunks_of(s, c).len() ==> (#[trigger] chunks_of(s, c)[i]).index == i
                && chunks_of(s, c)[i].offset == i * c,
        forall|i: int|
            0 <= i < chunks_of(s, c).len() - 1 ==> (#[trigger] chunks_of(s, c)[i]).length == c,
        chunks_of(s, c).len() > 0 ==> chunks_of(s, c).last().length > 0,
{
    let n = chunk_count(s, c);
    lemma_chunk_count_bounds(s, c);
    lemma_prefix_total(s, c, n);
    assert(chunks_of(s, c).take(n as int) =~= chunks_of(s, c));
    assert forall|i: int| 0 <= i < chunks_of(s, c).len() implies (#[trigger] chunks_of(
        s,
        c,
    )[i]).index == i && chunks_of(s, c)[i].offset == i * c by {
        assert(i * c < s) by (nonlinear_arith)
            requires
                0 <= i < n,
                (n - 1) * c < s,
                c > 0,
        ;
    }
    assert forall|i: int| 0 <= i < chunks_of(s, c).len() - 1 implies (#[trigger] chunks_of(
        s,
        c,
    )[i]).length == c by {
        assert((i + 1) * c <= s && c <= s) by (nonlinear_arith)
            requires
                0 <= i < n - 1,
                n * c >= s,
                (n - 1) * c < s,
                c > 0,
        ;
    }
    if n > 0 {
        assert((n - 1) * c < s);
        lemma_chunk_length_bounded(s, c, (n - 1) as nat);
        assert(chunks_of(s, c).len() == n);
        assert(chunks_of(s, c).last() == chunks_of(s, c)[n - 1]);
    }
}

/// A file of at most one chunk's size goes in one request; a larger one goes in chunks.
pub proof fn lemma_single_shot_boundary(s: nat, c: nat)
    requires
        c > 0,
        s <= u64::MAX,
    ensures
        s <= c ==> plan_of(s, c) == TransferPlan::Single,
        s > c ==> (plan_of(s, c) matches TransferPlan::Chunked { count } && count >= 2),
{
    if s > c {
        lemma_chunk_count_bounds(s, c);
        assert(chunk_count(s, c) >= 2) by (nonlinear_arith)
            requires
                chunk_count(s, c) * c >= s,
                s > c,
                c > 0,
        ;
        assert(chunk_count(s, c) <= s) by (nonlinear_arith)
            requires
                (chunk_count(s, c) - 1) * c < s,
                c > 0,
                s > 0,
        ;
    }
}

/// Decides how a file of `size` bytes is sent, given the session's chunk size.
pub fn plan_transfer(size: u64, chunk_size: u64) -> (r: TransferPlan)
    requires
        chunk_size > 0,
    ensures
        r == plan_of(size as nat, chunk_size as nat),
{
    if size <= chunk_size {
        TransferPlan::Single
    } else {
        proof {
            lemma_single_shot_boundary(size as nat, chunk_size as nat);
        }
        TransferPlan::Chunked { count: count_chunks(size, chunk_size) }
    }
}

/// The number of chunks of `chunk_size` bytes that cover `size` bytes.
pub fn count_chunks(size: u64, chunk_size: u64) -> (r: u64)
    requires
        chunk_size > 0,
    ensures
        r == chunk_count(size as nat, chunk_size as nat),
{
    let q = size / chunk_size;
    proof {
        if size % chunk_size != 0 {
            assert(q < u64::MAX) by (nonlinear_arith)
                requires
                    q == size / chunk_size,
                    size % chunk_size != 0,
                    chunk_size > 0,
                    size <= u64::MAX,
            ;
        }
    }
    let r = if size % chunk_size == 0 { q } else { q + 1 };
    proof {
        let s = size as int;
        let c = chunk_size as int;
        assert(r == (s + c - 1) / c) by (nonlinear_arith)
            requires
                c > 0,
                s >= 0,
                q == s / c,
                r == if s % c == 0 { q as int } else { q + 1 },
        ;
    }
    r
}

/// The chunk tasks of a file of `size` bytes, in order.
pub fn plan_chunks(size: u64, chunk_size: u64) -> (r: Vec<ChunkTask>)
    requires
        chunk_size > 0,
    ensures
        r@ == chunks_of(size as nat, chunk_size as nat),
{
    let n = count_chunks(size, chunk_size);
    proof {
        lemma_chunk_count_bounds(size as nat, chunk_size as nat);
    }
    let mut r: Vec<ChunkTask> = Vec::new();
    let mut i: u64 = 0;
    while i < n
        invariant
            i <= n,
            n == chunk_count(size as nat, chunk_size as nat),
            size > 0 ==> (n - 1) * chunk_size < size,
            size == 0 ==> n == 0,
            chunk_size > 0,
            r@ == chunks_of(size as nat, chunk_size as nat).take(i as int),
        decreases n - i,
    {
        let t = chunk_at(size, chunk_size, i);
        r.push(t);
        i = i + 1;
        assert(r@ =~= chunks_of(size as nat, chunk_size as nat).take(i as int));
    }
    assert(r@ =~= chunks_of(size as nat, chunk_size as nat));
    r
}

/// Chunk `i` of a file of `size` bytes.
pub fn chunk_at(size: u64, chunk_size: u64, i: u64) -> (t: ChunkTask)
    requires
        chunk_size > 0,
        i < chunk_count(size as nat, chunk_size as nat),
    ensures
        t == chunks_of(size as nat, chunk_size as nat)[i as int],
{
    proof {
        lemma_chunk_count_bounds(size as nat, chunk_size as nat);
        assert(i * chunk_size < size) by (nonlinear_arith)
            requires
                i < chunk_count(size as nat, chunk_size as nat),
                (chunk_count(size as nat, chunk_size as nat) - 1) * chunk_size < size,
                chunk_size > 0,
        ;
    }
    let offset = i * chunk_size;
    let length = if size - offset >= chunk_size { chunk_size } else { size - offset };
    proof {
        assert((i + 1) * chunk_size == offset + chunk_size) by (nonlinear_arith)
            requires
                offset == i * chunk_size,
        ;
    }
    ChunkTask { index: i, offset, length }
}

} // verus!
