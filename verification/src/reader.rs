//! The reader task: the one producer of a run.

use crate::block::concat;
use crate::block::plan;
use crate::channel::broadcast;
use crate::channel::bus_depth;
use crate::channel::close;
use crate::channel::bus_sent;
use crate::opts::SourceMode;
use crate::outcome::CopyError;
use crate::outcome::ReaderReport;
use crate::source::fetch;
use crate::source::lemma_walk_start;
use crate::source::lemma_walk_step;
use crate::source::rest;
use crate::source::walked;
use crate::source::BlockSource;
use crate::source::ReadRequest;
use bus::Bus;
use vstd::prelude::*;

verus! {

/// Where the reader task stands.
#[derive(Clone, Copy, Debug, PartialEq, Eq, Structural)]
pub enum ReaderPhase {
    /// Not started.
    Idle,
    /// Walking the source, which stands here.
    Reading(BlockSource),
    /// The source is done.
    Finished,
    /// Opening or reading the source failed.
    Failed,
}

/// The decisions of the reader task, apart from its channel.
#[derive(Clone, Copy, Debug, PartialEq, Eq, Structural)]
pub struct ReaderState {
    pub phase: ReaderPhase,
    /// Bytes read so far.
    pub bytes_read: usize,
    /// Blocks handed on so far.
    pub blocks: usize,
}

impl ReaderState {
    /// The read that comes next. A task that is not reading asks for none.
    pub open spec fn request(self) -> ReadRequest {
        match self.phase {
            ReaderPhase::Reading(source) => source.request(),
            _ => ReadRequest::Done,
        }
    }

    /// A block of `got` bytes can be taken: the task is reading, the block
    /// answers the open request, and both counts have room for it.
    pub open spec fn admits(self, got: usize) -> bool {
        &&& self.phase matches ReaderPhase::Reading(source)
        &&& source.admits(got)
        &&& self.bytes_read + got <= usize::MAX
        &&& self.blocks < usize::MAX
    }

    /// The state after a block of `got` bytes was taken.
    pub open spec fn recorded(self, got: usize) -> ReaderState {
        match self.phase {
            ReaderPhase::Reading(source) => ReaderState {
                phase: ReaderPhase::Reading(source.after(got)),
                bytes_read: (self.bytes_read + got) as usize,
                blocks: (self.blocks + 1) as usize,
            },
            _ => self,
        }
    }

    /// The state after the task was started on `source`.
    pub open spec fn started(self, source: BlockSource) -> ReaderState {
        if self.phase is Idle {
            ReaderState { phase: ReaderPhase::Reading(source), ..self }
        } else {
            self
        }
    }

    /// The state after the task was told to end in `phase`. A task that has
    /// ended stays as it is.
    pub open spec fn ended(self, phase: ReaderPhase) -> ReaderState {
        if self.phase is Idle || self.phase is Reading {
            ReaderState { phase, ..self }
        } else {
            self
        }
    }

    /// What the task reports: its counts as they stand, and a failure if it
    /// has failed.
    pub open spec fn summary(self) -> ReaderReport {
        ReaderReport {
            bytes_read: self.bytes_read,
            blocks: self.blocks,
            result: if self.phase is Failed {
                Err(CopyError::SourceRead)
            } else {
                Ok(())
            },
        }
    }

    /// A task that has not started and has read nothing.
    pub fn new() -> (state: ReaderState)
        ensures
            state == (ReaderState { phase: ReaderPhase::Idle, bytes_read: 0, blocks: 0 }),
    {
        ReaderState { phase: ReaderPhase::Idle, bytes_read: 0, blocks: 0 }
    }

    /// Starts the task on a source that is open.
    pub fn start(&mut self, source: BlockSource)
        ensures
            *final(self) == old(self).started(source),
    {
        match self.phase {
            ReaderPhase::Idle => {
                self.phase = ReaderPhase::Reading(source);
            },
            _ => {},
        }
    }

    /// The read that comes next.
    pub fn next_request(&self) -> (request: ReadRequest)
        ensures
            request == self.request(),
    {
        match self.phase {
            ReaderPhase::Reading(source) => source.next_request(),
            _ => ReadRequest::Done,
        }
    }

    /// Takes note of a block of `got` bytes. A block that cannot be taken is
    /// refused and changes nothing.
    pub fn record(&mut self, got: usize) -> (ok: bool)
        ensures
            ok == old(self).admits(got),
            ok ==> *final(self) == old(self).recorded(got),
            !ok ==> *final(self) == *old(self),
    {
        match self.phase {
            ReaderPhase::Reading(source) => {
                if got > usize::MAX - self.bytes_read || self.blocks == usize::MAX {
                    return false;
                }
                let mut next: BlockSource = source;
                if next.advance(got) {
                    self.phase = ReaderPhase::Reading(next);
                    self.bytes_read = self.bytes_read + got;
                    self.blocks = self.blocks + 1;
                    true
                } else {
                    false
                }
            },
            _ => false,
        }
    }

    /// Ends the task after the source is done.
    pub fn finish(&mut self)
        ensures
            *final(self) == old(self).ended(ReaderPhase::Finished),
    {
        match self.phase {
            ReaderPhase::Idle => {
                self.phase = ReaderPhase::Finished;
            },
            ReaderPhase::Reading(_) => {
                self.phase = ReaderPhase::Finished;
            },
            _ => {},
        }
    }

    /// Ends the task after the source could not be opened or read.
    pub fn fail(&mut self)
        ensures
            *final(self) == old(self).ended(ReaderPhase::Failed),
    {
        match self.phase {
            ReaderPhase::Idle => {
                self.phase = ReaderPhase::Failed;
            },
            ReaderPhase::Reading(_) => {
                self.phase = ReaderPhase::Failed;
            },
            _ => {},
        }
    }

    /// What the task reports: its counts as they stand, and a failure if it
    /// has failed.
    pub fn report(&self) -> (report: ReaderReport)
        ensures
            report == self.summary(),
    {
        let result: Result<(), CopyError> = match self.phase {
            ReaderPhase::Failed => Err(CopyError::SourceRead),
            _ => Ok(()),
        };
        ReaderReport { bytes_read: self.bytes_read, blocks: self.blocks, result }
    }
}

/// The reader task with the producer's end of the channel, which it alone
/// holds. The channel closes when the task is ended.
pub struct ReaderTask {
    state: ReaderState,
    bus: Bus<Vec<u8>>,
}

impl ReaderTask {
    /// Where the task stands.
    pub closed spec fn state(&self) -> ReaderState {
        self.state
    }

    /// The blocks handed to the channel so far, oldest first.
    pub closed spec fn sent(&self) -> Seq<Seq<u8>> {
        bus_sent(self.bus)
    }

    /// The depth of the channel.
    pub closed spec fn depth(&self) -> nat {
        bus_depth(self.bus)
    }

    /// A task around the producer's end of a channel, not started.
    pub(crate) fn new(bus: Bus<Vec<u8>>) -> (task: ReaderTask)
        ensures
            task.state() == (ReaderState { phase: ReaderPhase::Idle, bytes_read: 0, blocks: 0 }),
            task.sent() == bus_sent(bus),
            task.depth() == bus_depth(bus),
    {
        ReaderTask { state: ReaderState::new(), bus }
    }

    /// Starts the task on a source that is open.
    pub fn start(&mut self, source: BlockSource)
        ensures
            final(self).state() == old(self).state().started(source),
            final(self).sent() == old(self).sent(),
            final(self).depth() == old(self).depth(),
    {
        self.state.start(source);
    }

    /// The read that comes next.
    pub fn next_request(&self) -> (request: ReadRequest)
        ensures
            request == self.state().request(),
    {
        self.state.next_request()
    }

    /// Hands a block that was read from the source to every subscription,
    /// and counts it. The call waits while any subscription is full. A block
    /// that the task cannot take is refused: nothing is handed on.
    pub fn deliver(&mut self, block: Vec<u8>) -> (ok: bool)
        ensures
            ok == old(self).state().admits(block.len()),
            ok ==> final(self).state() == old(self).state().recorded(block.len()),
            ok ==> final(self).sent() == old(self).sent().push(block@),
            !ok ==> final(self).state() == old(self).state(),
            !ok ==> final(self).sent() == old(self).sent(),
            final(self).depth() == old(self).depth(),
    {
        if self.state.record(block.len()) {
            broadcast(&mut self.bus, block);
            true
        } else {
            false
        }
    }

    /// The whole reader loop on a source held in memory: starts the task,
    /// and hands every block of the plan to the channel, in order, waiting
    /// whenever a subscription is full. The task is left reading, at the end
    /// of its source.
    pub fn pump(&mut self, mode: SourceMode, block_size: usize, data: &Vec<u8>)
        requires
            block_size > 0,
            old(self).state() == (ReaderState { phase: ReaderPhase::Idle, bytes_read: 0, blocks: 0 }),
        ensures
            final(self).sent() == old(self).sent() + plan(mode, data@, block_size as nat),
            final(self).state().bytes_read == concat(plan(mode, data@, block_size as nat)).len(),
            final(self).state().blocks == plan(mode, data@, block_size as nat).len(),
            final(self).state().phase is Reading,
            final(self).state().request() == ReadRequest::Done,
            final(self).depth() == old(self).depth(),
    {
        self.start(BlockSource::new(mode, block_size, data.len() as u64));
        let mut position: usize = 0;
        let ghost done: Seq<Seq<u8>> = Seq::empty();
        proof {
            assert(data@.len() <= usize::MAX);
            lemma_walk_start(mode, block_size, data@);
            assert(old(self).sent() + done =~= old(self).sent());
        }
        loop
            invariant
                self.state().phase matches ReaderPhase::Reading(source) && walked(
                    mode,
                    block_size,
                    data@,
                    source,
                    position as int,
                    done,
                ),
                plan(mode, data@, block_size as nat).len() <= usize::MAX,
                data@.len() <= usize::MAX,
                self.state().bytes_read == position,
                self.state().blocks == done.len(),
                self.sent() == old(self).sent() + done,
                self.depth() == old(self).depth(),
            ensures
                self.state().phase is Reading,
                self.state().request() == ReadRequest::Done,
                done == plan(mode, data@, block_size as nat),
                self.state().bytes_read == concat(done).len(),
                self.state().blocks == done.len(),
                self.sent() == old(self).sent() + done,
                self.depth() == old(self).depth(),
            decreases rest(self.state().phase->Reading_0, data@.skip(position as int)).len(),
        {
            proof {
                lemma_walk_step(
                    mode,
                    block_size,
                    data@,
                    self.state().phase->Reading_0,
                    position as int,
                    done,
                );
            }
            match fetch(self.next_request(), data, position) {
                Some(block) => {
                    proof {
                        assert((old(self).sent() + done).push(block@) =~= old(self).sent()
                            + done.push(block@));
                        done = done.push(block@);
                    }
                    position = position + block.len();
                    let ok: bool = self.deliver(block);
                    assert(ok);
                },
                None => {
                    break ;
                },
            }
        }
    }

    /// Ends the task after the source is done, and closes the channel: every
    /// subscription drains what it holds and sees the end of the stream.
    pub fn finish(self) -> (report: ReaderReport)
        ensures
            report == self.state().ended(ReaderPhase::Finished).summary(),
    {
        let ReaderTask { mut state, bus } = self;
        state.finish();
        close(bus);
        state.report()
    }

    /// Ends the task after the source could not be opened or read. The
    /// channel closes all the same, so that no writer waits for ever.
    pub fn fail(self) -> (report: ReaderReport)
        ensures
            report == self.state().ended(ReaderPhase::Failed).summary(),
    {
        let ReaderTask { mut state, bus } = self;
        state.fail();
        close(bus);
        state.report()
    }
}

} // verus!
