//! Blocks: how a byte sequence is cut into them, and how they join again.

use crate::opts::SourceMode;
use vstd::prelude::*;

verus! {

/// All the bytes of `blocks`, in order.
pub open spec fn concat(blocks: Seq<Seq<u8>>) -> Seq<u8>
    decreases blocks.len(),
{
    if blocks.len() == 0 {
        Seq::empty()
    } else {
        concat(blocks.drop_last()) + blocks.last()
    }
}

/// `x`, held between 0 and `len`.
pub open spec fn clip(x: int, len: nat) -> int {
    if x < 0 {
        0
    } else if x > len {
        len as int
    } else {
        x
    }
}

/// The block with index `i` when `data` is cut every `size` bytes: the bytes
/// from `i * size` up to `(i + 1) * size`, as far as `data` reaches. Past the
/// end of `data` it is empty.
pub open spec fn block_at(data: Seq<u8>, size: nat, i: int) -> Seq<u8> {
    data.subrange(clip(i * size, data.len()), clip((i + 1) * size, data.len()))
}

/// The first `count` blocks of `data`, `size` bytes each as long as `data`
/// lasts.
pub open spec fn counted(data: Seq<u8>, size: nat, count: nat) -> Seq<Seq<u8>> {
    Seq::new(count, |i: int| block_at(data, size, i))
}

/// The number of blocks of `size` bytes that `len` bytes fill, the last one
/// possibly in part.
pub open spec fn blocks_needed(len: nat, size: nat) -> nat {
    if size == 0 {
        0
    } else {
        ((len + size - 1) / (size as int)) as nat
    }
}

/// `data` cut every `size` bytes, to its end: every block is full but the
/// last, which holds what is left.
pub open spec fn chunks(data: Seq<u8>, size: nat) -> Seq<Seq<u8>> {
    counted(data, size, blocks_needed(data.len(), size))
}

/// The blocks that a source holding `data` yields, in order.
pub open spec fn plan(mode: SourceMode, data: Seq<u8>, size: nat) -> Seq<Seq<u8>> {
    match mode {
        SourceMode::Stream => seq![data],
        SourceMode::Counted(count) => counted(data, size, count as nat),
        SourceMode::ToEnd => chunks(data, size),
    }
}

/// The bytes that a source holding `data` yields: all of them, or, when the
/// blocks are counted, as many as the count allows.
pub open spec fn stream(mode: SourceMode, data: Seq<u8>, size: nat) -> Seq<u8> {
    match mode {
        SourceMode::Counted(count) => data.take(clip(count * size, data.len())),
        _ => data,
    }
}

/// Joining after one more block appends that block.
pub proof fn lemma_concat_push(blocks: Seq<Seq<u8>>, block: Seq<u8>)
    ensures
        concat(blocks.push(block)) == concat(blocks) + block,
{
    assert(blocks.push(block).drop_last() =~= blocks);
}

/// Joining behind a first block puts that block in front.
pub proof fn lemma_concat_prepend(block: Seq<u8>, blocks: Seq<Seq<u8>>)
    ensures
        concat(seq![block] + blocks) == block + concat(blocks),
    decreases blocks.len(),
{
    let all = seq![block] + blocks;
    if blocks.len() == 0 {
        assert(all.drop_last() =~= Seq::<Seq<u8>>::empty());
        assert(concat(all.drop_last()) =~= Seq::<u8>::empty());
        assert(concat(all) =~= block + concat(blocks));
    } else {
        lemma_concat_prepend(block, blocks.drop_last());
        assert(all.drop_last() =~= seq![block] + blocks.drop_last());
        assert(concat(all) =~= block + concat(blocks));
    }
}

/// No block is longer than the size, and a block that ends within the data
/// is full.
pub proof fn lemma_block_size(data: Seq<u8>, size: nat, i: int)
    requires
        0 <= i,
    ensures
        block_at(data, size, i).len() <= size,
        (i + 1) * size <= data.len() ==> block_at(data, size, i).len() == size,
        i * size < data.len() ==> block_at(data, size, i).len() > 0 || size == 0,
{
    assert((i + 1) * size == i * size + size) by (nonlinear_arith);
    assert(i * size >= 0) by (nonlinear_arith)
        requires
            i >= 0,
    ;
}

/// In a cut to the end every block is full but the last, and the last holds
/// what is left, which is at least one byte.
pub proof fn lemma_chunk_sizes(data: Seq<u8>, size: nat, i: int)
    requires
        size > 0,
        0 <= i < chunks(data, size).len(),
    ensures
        0 < chunks(data, size)[i].len() <= size,
        i + 1 < chunks(data, size).len() ==> chunks(data, size)[i].len() == size,
        i + 1 == chunks(data, size).len() ==> chunks(data, size)[i].len() == data.len() - i * size,
{
    let s = size as int;
    let len = data.len() as int;
    let n = blocks_needed(data.len(), size) as int;
    assert((n - 1) * s < len && len <= n * s) by (nonlinear_arith)
        requires
            s > 0,
            len >= 0,
            n == (len + s - 1) / s,
            n > 0,
    ;
    assert((i + 1) * s == i * s + s) by (nonlinear_arith);
    assert(i * s <= (n - 1) * s) by (nonlinear_arith)
        requires
            0 <= i <= n - 1,
            s > 0,
    ;
    assert(i * s >= 0) by (nonlinear_arith)
        requires
            i >= 0,
            s > 0,
    ;
    if i + 1 < n {
        assert((i + 1) * s <= (n - 1) * s) by (nonlinear_arith)
            requires
                i + 1 <= n - 1,
                s > 0,
        ;
    }
}

/// Cutting off the first block leaves the same cut of what follows it.
pub proof fn lemma_counted_unfold(data: Seq<u8>, size: nat, count: nat)
    requires
        size > 0,
        count > 0,
    ensures
        counted(data, size, count) == seq![data.take(clip(size as int, data.len()))] + counted(
            data.skip(clip(size as int, data.len())),
            size,
            (count - 1) as nat,
        ),
{
    let n = clip(size as int, data.len());
    let rest = data.skip(n);
    let left = counted(data, size, count);
    let right = seq![data.take(n)] + counted(rest, size, (count - 1) as nat);
    assert(left.len() == right.len());
    assert forall|i: int| 0 <= i < left.len() implies left[i] == right[i] by {
        if i == 0 {
            assert(0 * size == 0) by (nonlinear_arith);
            assert((0 + 1) * size == size) by (nonlinear_arith);
            assert(left[0] =~= data.take(n));
        } else {
            let j = i - 1;
            assert(i * size == j * size + size) by (nonlinear_arith)
                requires
                    j == i - 1,
            ;
            assert((i + 1) * size == (j + 1) * size + size) by (nonlinear_arith)
                requires
                    j == i - 1,
            ;
            assert(j * size >= 0) by (nonlinear_arith)
                requires
                    j >= 0,
            ;
            assert(right[i] == block_at(rest, size, j));
            assert(block_at(rest, size, j) =~= block_at(data, size, i));
        }
    }
    assert(left =~= right);
}

/// Taking off the first block leaves one block less to fill.
pub proof fn lemma_blocks_needed_step(len: nat, size: nat)
    requires
        size > 0,
        len > 0,
    ensures
        blocks_needed(len, size) == 1 + blocks_needed((len - clip(size as int, len)) as nat, size),
{
    let s = size as int;
    if len >= size {
        let x = len - size;
        assert((x + s - 1 + s) / s == (x + s - 1) / s + 1) by (nonlinear_arith)
            requires
                s > 0,
                x >= 0,
        ;
    } else {
        assert((len + s - 1) / s == 1) by (nonlinear_arith)
            requires
                s > 0,
                0 < len < s,
        ;
        assert((0 + s - 1) / s == 0) by (nonlinear_arith)
            requires
                s > 0,
        ;
    }
}

/// Cutting off the first block of a cut to the end leaves the cut to the end
/// of what follows it.
pub proof fn lemma_chunks_unfold(data: Seq<u8>, size: nat)
    requires
        size > 0,
        data.len() > 0,
    ensures
        chunks(data, size) == seq![data.take(clip(size as int, data.len()))] + chunks(
            data.skip(clip(size as int, data.len())),
            size,
        ),
{
    lemma_blocks_needed_step(data.len(), size);
    lemma_counted_unfold(data, size, blocks_needed(data.len(), size));
}

/// Nothing is cut into no blocks.
pub proof fn lemma_chunks_empty(data: Seq<u8>, size: nat)
    requires
        data.len() == 0,
    ensures
        chunks(data, size) == Seq::<Seq<u8>>::empty(),
{
    if size > 0 {
        let s = size as int;
        assert((0 + s - 1) / s == 0) by (nonlinear_arith)
            requires
                s > 0,
        ;
    }
    assert(chunks(data, size) =~= Seq::<Seq<u8>>::empty());
}

/// Counted blocks join to the part of the data that the count reaches.
pub proof fn lemma_counted_concat(data: Seq<u8>, size: nat, count: nat)
    requires
        size > 0,
    ensures
        concat(counted(data, size, count)) == data.take(clip((count * size) as int, data.len())),
    decreases count,
{
    if count == 0 {
        assert(0 * size == 0) by (nonlinear_arith);
        assert(concat(counted(data, size, count)) =~= data.take(0));
    } else {
        let n = clip(size as int, data.len());
        let rest = data.skip(n);
        let c = (count - 1) as nat;
        lemma_counted_unfold(data, size, count);
        lemma_counted_concat(rest, size, c);
        lemma_concat_prepend(data.take(n), counted(rest, size, c));
        assert(count * size == c * size + size) by (nonlinear_arith)
            requires
                c == count - 1,
        ;
        assert(c * size >= 0) by (nonlinear_arith);
        assert(data.take(n) + rest.take(clip((c * size) as int, rest.len())) =~= data.take(
            clip((count * size) as int, data.len()),
        ));
    }
}

/// A cut to the end joins to the data: nothing is lost, repeated or moved.
pub proof fn lemma_chunks_concat(data: Seq<u8>, size: nat)
    requires
        size > 0,
    ensures
        concat(chunks(data, size)) == data,
{
    let s = size as int;
    let len = data.len() as int;
    let k = blocks_needed(data.len(), size) as int;
    lemma_counted_concat(data, size, blocks_needed(data.len(), size));
    assert(k * s >= len) by (nonlinear_arith)
        requires
            s > 0,
            len >= 0,
            k == (len + s - 1) / s,
    ;
    assert(data.take(len) =~= data);
}

/// A plan has no more blocks than a count can hold.
pub proof fn lemma_plan_len(mode: SourceMode, data: Seq<u8>, size: nat)
    requires
        size > 0,
        data.len() <= usize::MAX,
    ensures
        plan(mode, data, size).len() <= usize::MAX,
{
    let s = size as int;
    let len = data.len() as int;
    assert((len + s - 1) / s <= len) by (nonlinear_arith)
        requires
            s > 0,
            len >= 0,
    ;
}

/// The blocks of any plan join to the stream of that plan.
pub proof fn lemma_plan_concat(mode: SourceMode, data: Seq<u8>, size: nat)
    requires
        size > 0,
    ensures
        concat(plan(mode, data, size)) == stream(mode, data, size),
{
    match mode {
        SourceMode::Stream => {
            assert(seq![data].drop_last() =~= Seq::<Seq<u8>>::empty());
            assert(concat(seq![data].drop_last()) =~= Seq::<u8>::empty());
            assert(concat(seq![data]) =~= data);
        },
        SourceMode::Counted(count) => {
            lemma_counted_concat(data, size, count as nat);
        },
        SourceMode::ToEnd => {
            lemma_chunks_concat(data, size);
        },
    }
}

/// What one read of a source held in memory yields: the bytes of `data` from
/// `start` on, `want` of them at most.
pub fn read_at(data: &Vec<u8>, start: usize, want: usize) -> (block: Vec<u8>)
    ensures
        block@ == data@.subrange(
            clip(start as int, data@.len()),
            clip(start + want, data@.len()),
        ),
{
    let len: usize = data.len();
    let from: usize = if start < len { start } else { len };
    let room: usize = len - from;
    let n: usize = if want < room { want } else { room };
    let mut block: Vec<u8> = Vec::with_capacity(n);
    let mut i: usize = 0;
    while i < n
        invariant
            len == data@.len(),
            from + n <= len,
            i <= n,
            block@ == data@.subrange(from as int, from + i),
        decreases n - i,
    {
        block.push(data[from + i]);
        i += 1;
        assert(block@ =~= data@.subrange(from as int, from + i));
    }
    block
}

} // verus!
