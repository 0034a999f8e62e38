//! The block source: which read comes next, and when the source is done.
//!
//! The source itself is read elsewhere. What is decided here is the size of
//! each read and the end of the walk, from the sizes of the reads so far.

use crate::block::chunks;
use crate::block::clip;
use crate::block::concat;
use crate::block::counted;
use crate::block::lemma_chunks_empty;
use crate::block::lemma_chunks_unfold;
use crate::block::lemma_concat_push;
use crate::block::lemma_counted_unfold;
use crate::block::lemma_plan_len;
use crate::block::plan;
use crate::block::read_at;
use crate::opts::SourceMode;
use vstd::prelude::*;

verus! {

/// What the reader is to do next.
#[derive(Clone, Copy, Debug, PartialEq, Eq, Structural)]
pub enum ReadRequest {
    /// One read into a buffer of this many bytes. What it yields, be it less
    /// than asked for or nothing, is the next block.
    Read(usize),
    /// One greedy read to the end of the input. All of it is the next block.
    ReadToEnd,
    /// Nothing: the source is done.
    Done,
}

/// Where a walk over a source stands.
#[derive(Clone, Copy, Debug, PartialEq, Eq, Structural)]
pub enum BlockSource {
    /// A source without a length, and whether its one block has been taken.
    Stream { taken: bool },
    /// A source read a fixed number of times, and the reads still to come.
    Counted { block_size: usize, remaining: usize },
    /// A source read to its end, and how far the reads have come.
    ToEnd { block_size: usize, position: u64, length: u64 },
}

impl BlockSource {
    /// The read that comes next.
    pub open spec fn request(self) -> ReadRequest {
        match self {
            BlockSource::Stream { taken } => if taken {
                ReadRequest::Done
            } else {
                ReadRequest::ReadToEnd
            },
            BlockSource::Counted { block_size, remaining } => if remaining > 0 {
                ReadRequest::Read(block_size)
            } else {
                ReadRequest::Done
            },
            BlockSource::ToEnd { block_size, position, length } => if position < length {
                if length - position < block_size {
                    ReadRequest::Read((length - position) as usize)
                } else {
                    ReadRequest::Read(block_size)
                }
            } else {
                ReadRequest::Done
            },
        }
    }

    /// A read that yielded `got` bytes answers the request that is open.
    pub open spec fn admits(self, got: usize) -> bool {
        match self.request() {
            ReadRequest::Read(size) => got <= size,
            ReadRequest::ReadToEnd => true,
            ReadRequest::Done => false,
        }
    }

    /// The walk after a read that yielded `got` bytes.
    pub open spec fn after(self, got: usize) -> BlockSource {
        match self {
            BlockSource::Stream { taken } => BlockSource::Stream { taken: true },
            BlockSource::Counted { block_size, remaining } => BlockSource::Counted {
                block_size,
                remaining: (remaining - 1) as usize,
            },
            BlockSource::ToEnd { block_size, position, length } => BlockSource::ToEnd {
                block_size,
                position: (position + got) as u64,
                length,
            },
        }
    }

    /// The start of a walk. `length` is the length of the source and counts
    /// only where the walk goes to the end.
    pub open spec fn start(mode: SourceMode, block_size: usize, length: u64) -> BlockSource {
        match mode {
            SourceMode::Stream => BlockSource::Stream { taken: false },
            SourceMode::Counted(count) => BlockSource::Counted { block_size, remaining: count },
            SourceMode::ToEnd => BlockSource::ToEnd { block_size, position: 0, length },
        }
    }

    /// The start of a walk over a source of `length` bytes.
    pub fn new(mode: SourceMode, block_size: usize, length: u64) -> (source: BlockSource)
        ensures
            source == BlockSource::start(mode, block_size, length),
    {
        match mode {
            SourceMode::Stream => BlockSource::Stream { taken: false },
            SourceMode::Counted(count) => BlockSource::Counted { block_size, remaining: count },
            SourceMode::ToEnd => BlockSource::ToEnd { block_size, position: 0, length },
        }
    }

    /// The read that comes next.
    pub fn next_request(&self) -> (request: ReadRequest)
        ensures
            request == self.request(),
    {
        match *self {
            BlockSource::Stream { taken } => if taken {
                ReadRequest::Done
            } else {
                ReadRequest::ReadToEnd
            },
            BlockSource::Counted { block_size, remaining } => if remaining > 0 {
                ReadRequest::Read(block_size)
            } else {
                ReadRequest::Done
            },
            BlockSource::ToEnd { block_size, position, length } => if position < length {
                let left: u64 = length - position;
                if left < block_size as u64 {
                    ReadRequest::Read(left as usize)
                } else {
                    ReadRequest::Read(block_size)
                }
            } else {
                ReadRequest::Done
            },
        }
    }

    /// Takes note of a read that yielded `got` bytes. A read that answers no
    /// open request is refused and changes nothing.
    pub fn advance(&mut self, got: usize) -> (ok: bool)
        ensures
            ok == old(self).admits(got),
            ok ==> *final(self) == old(self).after(got),
            !ok ==> *final(self) == *old(self),
    {
        match self.next_request() {
            ReadRequest::Done => false,
            ReadRequest::ReadToEnd => {
                *self = BlockSource::Stream { taken: true };
                true
            },
            ReadRequest::Read(size) => {
                if got > size {
                    return false;
                }
                match *self {
                    BlockSource::Stream { taken } => {},
                    BlockSource::Counted { block_size, remaining } => {
                        *self = BlockSource::Counted { block_size, remaining: remaining - 1 };
                    },
                    BlockSource::ToEnd { block_size, position, length } => {
                        *self = BlockSource::ToEnd {
                            block_size,
                            position: position + got as u64,
                            length,
                        };
                    },
                }
                true
            },
        }
    }
}

/// The walk fits the unread `tail` of a source held in memory: the blocks
/// have a size, and a walk to the end has exactly `tail` left.
pub open spec fn fits(source: BlockSource, tail: Seq<u8>) -> bool {
    match source {
        BlockSource::Stream { taken } => true,
        BlockSource::Counted { block_size, remaining } => block_size > 0,
        BlockSource::ToEnd { block_size, position, length } => {
            &&& block_size > 0
            &&& position <= length
            &&& length - position == tail.len()
        },
    }
}

/// The blocks still to come from a walk that has `tail` left to read.
pub open spec fn rest(source: BlockSource, tail: Seq<u8>) -> Seq<Seq<u8>> {
    match source {
        BlockSource::Stream { taken } => if taken {
            Seq::empty()
        } else {
            seq![tail]
        },
        BlockSource::Counted { block_size, remaining } => counted(
            tail,
            block_size as nat,
            remaining as nat,
        ),
        BlockSource::ToEnd { block_size, position, length } => chunks(tail, block_size as nat),
    }
}

/// What the read that `request` asks for yields from `tail`.
pub open spec fn yields(request: ReadRequest, tail: Seq<u8>) -> Option<Seq<u8>> {
    match request {
        ReadRequest::Read(size) => Some(tail.take(clip(size as int, tail.len()))),
        ReadRequest::ReadToEnd => Some(tail),
        ReadRequest::Done => None,
    }
}

/// A walk over `data` stands at `source`, has read the bytes before
/// `position`, and has yielded the blocks `done`: what is done and what is
/// still to come are, together, the plan.
pub open spec fn walked(
    mode: SourceMode,
    block_size: usize,
    data: Seq<u8>,
    source: BlockSource,
    position: int,
    done: Seq<Seq<u8>>,
) -> bool {
    &&& 0 <= position <= data.len()
    &&& fits(source, data.skip(position))
    &&& done + rest(source, data.skip(position)) == plan(mode, data, block_size as nat)
    &&& concat(done).len() == position
}

/// A walk at its start has the whole plan before it.
pub proof fn lemma_walk_start(mode: SourceMode, block_size: usize, data: Seq<u8>)
    requires
        block_size > 0,
        data.len() <= usize::MAX,
    ensures
        walked(
            mode,
            block_size,
            data,
            BlockSource::start(mode, block_size, data.len() as u64),
            0,
            Seq::empty(),
        ),
        plan(mode, data, block_size as nat).len() <= usize::MAX,
{
    let source = BlockSource::start(mode, block_size, data.len() as u64);
    lemma_plan_len(mode, data, block_size as nat);
    assert(data.skip(0) =~= data);
    assert(Seq::<Seq<u8>>::empty() + rest(source, data) =~= rest(source, data));
    assert(concat(Seq::<Seq<u8>>::empty()) =~= Seq::<u8>::empty());
}

/// One read takes the first of the blocks still to come and leaves the
/// others; a walk that asks for no read has yielded the whole plan.
pub proof fn lemma_walk_step(
    mode: SourceMode,
    block_size: usize,
    data: Seq<u8>,
    source: BlockSource,
    position: int,
    done: Seq<Seq<u8>>,
)
    requires
        walked(mode, block_size, data, source, position, done),
        data.len() <= usize::MAX,
    ensures
        match yields(source.request(), data.skip(position)) {
            Some(block) => {
                &&& position + block.len() <= data.len()
                &&& source.admits(block.len() as usize)
                &&& done.len() < plan(mode, data, block_size as nat).len()
                &&& walked(
                    mode,
                    block_size,
                    data,
                    source.after(block.len() as usize),
                    position + block.len(),
                    done.push(block),
                )
                &&& rest(source.after(block.len() as usize), data.skip(position + block.len())).len()
                    < rest(source, data.skip(position)).len()
            },
            None => done == plan(mode, data, block_size as nat),
        },
{
    let tail = data.skip(position);
    match yields(source.request(), tail) {
        Some(block) => {
            let next = source.after(block.len() as usize);
            let left = data.skip(position + block.len());
            assert(tail.skip(block.len() as int) =~= left);
            match source {
                BlockSource::Stream { taken } => {
                    assert(rest(source, tail) =~= seq![block] + rest(next, left));
                },
                BlockSource::Counted { block_size, remaining } => {
                    lemma_counted_unfold(tail, block_size as nat, remaining as nat);
                },
                BlockSource::ToEnd { block_size, position: at, length } => {
                    lemma_chunks_unfold(tail, block_size as nat);
                },
            }
            assert(done.push(block) + rest(next, left) =~= done + (seq![block] + rest(next, left)));
            lemma_concat_push(done, block);
        },
        None => {
            match source {
                BlockSource::Stream { taken } => {},
                BlockSource::Counted { block_size, remaining } => {
                    assert(rest(source, tail) =~= Seq::<Seq<u8>>::empty());
                },
                BlockSource::ToEnd { block_size, position: at, length } => {
                    lemma_chunks_empty(tail, block_size as nat);
                },
            }
            assert(done + Seq::<Seq<u8>>::empty() =~= done);
        },
    }
}

/// Carries out `request` on a source held in memory, of which the bytes
/// before `position` have been read. A position past the end is the end.
pub fn fetch(request: ReadRequest, data: &Vec<u8>, position: usize) -> (block: Option<Vec<u8>>)
    ensures
        option_bytes(block) == yields(
            request,
            data@.skip(clip(position as int, data@.len())),
        ),
{
    let ghost tail: Seq<u8> = data@.skip(clip(position as int, data@.len()));
    match request {
        ReadRequest::Read(size) => {
            let block: Vec<u8> = read_at(data, position, size);
            assert(block@ =~= tail.take(clip(size as int, tail.len())));
            Some(block)
        },
        ReadRequest::ReadToEnd => {
            let block: Vec<u8> = read_at(data, position, data.len());
            assert(block@ =~= tail);
            Some(block)
        },
        ReadRequest::Done => None,
    }
}

/// The bytes of a block that may be absent.
pub open spec fn option_bytes(block: Option<Vec<u8>>) -> Option<Seq<u8>> {
    match block {
        Some(b) => Some(b@),
        None => None,
    }
}

} // verus!
