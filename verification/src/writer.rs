//! The writer task: what one sink does with what its subscription yields.

use crate::block::concat;
use crate::channel::leave;
use crate::channel::reader_received;
use crate::channel::receive;
use crate::outcome::CopyError;
use crate::sink::MemorySink;
use crate::sink::SinkState;
use crate::source::option_bytes;
use bus::BusReader;
use vstd::prelude::*;

verus! {

/// Where a writer task stands. `Ready`, `Busy` and `Closing` are the three
/// moments of writing: waiting for the channel, waiting for a write to
/// end, waiting for the destination to be finalized.
#[derive(Clone, Copy, Debug, PartialEq, Eq, Structural)]
pub enum WriterPhase {
    /// Not started: the destination is not open yet.
    Idle,
    /// Waiting for the next block.
    Ready,
    /// A block of this many bytes is being written.
    Busy(usize),
    /// The channel is closed and drained, and the destination is being
    /// finalized.
    Closing,
    /// Every block was written and the destination finalized.
    Finished,
    /// The task gave up, for this reason.
    Failed(CopyError),
}

/// What the task's destination is to do next.
#[derive(Debug)]
pub enum WriterAction {
    /// Write this block, all of it, once.
    Write(Vec<u8>),
    /// Flush and finalize the destination.
    Finalize,
    /// Nothing: the task takes no block now.
    Stop,
}

/// The decisions of a writer task, apart from its subscription.
#[derive(Clone, Copy, Debug, PartialEq, Eq, Structural)]
pub struct WriterState {
    /// The index of the task's sink among the sinks of the run.
    pub sink: usize,
    pub phase: WriterPhase,
}

impl WriterState {
    /// The task is between its start and its end.
    pub open spec fn is_writing(self) -> bool {
        self.phase is Ready || self.phase is Busy || self.phase is Closing
    }

    /// The task has ended, well or not.
    pub open spec fn is_done(self) -> bool {
        self.phase is Finished || self.phase is Failed
    }

    /// The state after the destination was opened, or could not be.
    pub open spec fn opened(self, ok: bool) -> WriterState {
        if self.phase is Idle {
            WriterState {
                sink: self.sink,
                phase: if ok {
                    WriterPhase::Ready
                } else {
                    WriterPhase::Failed(CopyError::SinkOpen { sink: self.sink })
                },
            }
        } else {
            self
        }
    }

    /// The state after the subscription yielded a block of `len` bytes, or,
    /// with `None`, reported the end of the stream.
    pub open spec fn received(self, len: Option<usize>) -> WriterState {
        if self.phase is Ready {
            WriterState {
                sink: self.sink,
                phase: match len {
                    Some(n) => WriterPhase::Busy(n),
                    None => WriterPhase::Closing,
                },
            }
        } else {
            self
        }
    }

    /// The state after the write that is under way took `accepted` bytes, or,
    /// with `None`, failed. A write that took fewer bytes than it was handed
    /// is a failure: it is not tried again.
    pub open spec fn written(self, accepted: Option<usize>) -> WriterState {
        match self.phase {
            WriterPhase::Busy(requested) => WriterState {
                sink: self.sink,
                phase: match accepted {
                    Some(n) => if n < requested {
                        WriterPhase::Failed(CopyError::ShortWrite { sink: self.sink })
                    } else {
                        WriterPhase::Ready
                    },
                    None => WriterPhase::Failed(CopyError::SinkWrite { sink: self.sink }),
                },
            },
            _ => self,
        }
    }

    /// The state after the destination was finalized, or could not be.
    pub open spec fn closed(self, ok: bool) -> WriterState {
        if self.phase is Closing {
            WriterState {
                sink: self.sink,
                phase: if ok {
                    WriterPhase::Finished
                } else {
                    WriterPhase::Failed(CopyError::SinkWrite { sink: self.sink })
                },
            }
        } else {
            self
        }
    }

    /// What the task ends in: its failure if it has one.
    pub open spec fn outcome(self) -> Result<(), CopyError> {
        match self.phase {
            WriterPhase::Failed(e) => Err(e),
            _ => Ok(()),
        }
    }

    /// A task for the sink with index `sink`, not started.
    pub fn new(sink: usize) -> (state: WriterState)
        ensures
            state == (WriterState { sink, phase: WriterPhase::Idle }),
    {
        WriterState { sink, phase: WriterPhase::Idle }
    }

    /// Starts the task: `ok` says whether its destination could be opened.
    pub fn start(&mut self, ok: bool)
        ensures
            *final(self) == old(self).opened(ok),
    {
        match self.phase {
            WriterPhase::Idle => {
                if ok {
                    self.phase = WriterPhase::Ready;
                } else {
                    self.phase = WriterPhase::Failed(CopyError::SinkOpen { sink: self.sink });
                }
            },
            _ => {},
        }
    }

    /// Takes what the subscription yielded and says what to do with it. A
    /// task that is not waiting for a block takes none: the block is dropped.
    pub fn accept(&mut self, received: Option<Vec<u8>>) -> (action: WriterAction)
        ensures
            *final(self) == old(self).received(
                match received {
                    Some(block) => Some(block.len()),
                    None => None,
                },
            ),
            match action {
                WriterAction::Write(block) => old(self).phase is Ready && received == Some(block),
                WriterAction::Finalize => old(self).phase is Ready && received is None,
                WriterAction::Stop => !(old(self).phase is Ready),
            },
    {
        match self.phase {
            WriterPhase::Ready => match received {
                Some(block) => {
                    self.phase = WriterPhase::Busy(block.len());
                    WriterAction::Write(block)
                },
                None => {
                    self.phase = WriterPhase::Closing;
                    WriterAction::Finalize
                },
            },
            _ => WriterAction::Stop,
        }
    }

    /// Takes note of how the write under way ended.
    pub fn wrote(&mut self, accepted: Option<usize>)
        ensures
            *final(self) == old(self).written(accepted),
    {
        match self.phase {
            WriterPhase::Busy(requested) => match accepted {
                Some(n) => {
                    if n < requested {
                        self.phase = WriterPhase::Failed(CopyError::ShortWrite { sink: self.sink });
                    } else {
                        self.phase = WriterPhase::Ready;
                    }
                },
                None => {
                    self.phase = WriterPhase::Failed(CopyError::SinkWrite { sink: self.sink });
                },
            },
            _ => {},
        }
    }

    /// Takes note of how finalizing the destination ended.
    pub fn finalized(&mut self, ok: bool)
        ensures
            *final(self) == old(self).closed(ok),
    {
        match self.phase {
            WriterPhase::Closing => {
                if ok {
                    self.phase = WriterPhase::Finished;
                } else {
                    self.phase = WriterPhase::Failed(CopyError::SinkWrite { sink: self.sink });
                }
            },
            _ => {},
        }
    }

    /// What the task ends in: its failure if it has one.
    pub fn result(&self) -> (result: Result<(), CopyError>)
        ensures
            result == self.outcome(),
    {
        match self.phase {
            WriterPhase::Failed(e) => Err(e),
            _ => Ok(()),
        }
    }

    /// Whether the task has ended, well or not.
    pub fn done(&self) -> (done: bool)
        ensures
            done == self.is_done(),
    {
        match self.phase {
            WriterPhase::Finished => true,
            WriterPhase::Failed(_) => true,
            _ => false,
        }
    }

    /// The task and its sink after the task was given `received` and carried
    /// out on the sink what that calls for: a block is written in one write,
    /// the end of the stream finalizes the sink, and a task that is not
    /// waiting for a block leaves the sink alone.
    pub open spec fn fed(self, sink: SinkState, received: Option<Seq<u8>>) -> (
        WriterState,
        SinkState,
    ) {
        if self.phase is Ready {
            match received {
                Some(block) => (
                    WriterState {
                        sink: self.sink,
                        phase: if sink.takes(block) < block.len() {
                            WriterPhase::Failed(CopyError::ShortWrite { sink: self.sink })
                        } else {
                            WriterPhase::Ready
                        },
                    },
                    sink.written(block),
                ),
                None => (
                    WriterState { sink: self.sink, phase: WriterPhase::Finished },
                    sink.finalized(),
                ),
            }
        } else {
            (self, sink)
        }
    }

    /// The task and its sink after the task was given `blocks`, one after
    /// the other.
    pub open spec fn fed_all(self, sink: SinkState, blocks: Seq<Seq<u8>>) -> (
        WriterState,
        SinkState,
    )
        decreases blocks.len(),
    {
        if blocks.len() == 0 {
            (self, sink)
        } else {
            let (writer, held) = self.fed_all(sink, blocks.drop_last());
            writer.fed(held, Some(blocks.last()))
        }
    }

    /// One turn of the task on a sink in memory.
    pub fn feed(&mut self, sink: &mut MemorySink, received: Option<Vec<u8>>)
        ensures
            (*final(self), final(sink)@) == old(self).fed(old(sink)@, option_bytes(received)),
    {
        match self.accept(received) {
            WriterAction::Write(block) => {
                let accepted: usize = sink.write(&block);
                self.wrote(Some(accepted));
            },
            WriterAction::Finalize => {
                let ok: bool = sink.sync();
                self.finalized(ok);
            },
            WriterAction::Stop => {},
        }
    }
}

/// The task of the sink with index `index` and its sink stand where all of
/// `bytes`, given block by block, leave them when the sink was `before`:
/// the sink holds as much of `bytes` as it had room for, and the task has
/// failed with a short write if that was not all, and waits for more if it
/// was.
pub open spec fn mid_stream(
    index: usize,
    before: SinkState,
    bytes: Seq<u8>,
    writer: WriterState,
    sink: SinkState,
) -> bool {
    &&& writer.sink == index
    &&& writer.phase == if before.overflows(bytes) {
        WriterPhase::Failed(CopyError::ShortWrite { sink: index })
    } else {
        WriterPhase::Ready
    }
    &&& sink.limit == before.limit
    &&& sink.data == before.data + bytes.take(before.takes(bytes) as int)
    &&& before.overflows(bytes) ==> !sink.synced
}

/// One more block: a task and a sink that stand where `bytes` left them
/// stand, after `block`, where `bytes + block` leaves them.
pub proof fn lemma_fed_block(
    index: usize,
    before: SinkState,
    bytes: Seq<u8>,
    writer: WriterState,
    sink: SinkState,
    block: Seq<u8>,
)
    requires
        mid_stream(index, before, bytes, writer, sink),
    ensures
        mid_stream(
            index,
            before,
            bytes + block,
            writer.fed(sink, Some(block)).0,
            writer.fed(sink, Some(block)).1,
        ),
{
    let more = bytes + block;
    let held = writer.fed(sink, Some(block)).1;
    if before.overflows(bytes) {
        assert(more.take(before.room() as int) =~= bytes.take(before.room() as int));
    } else {
        assert(bytes.take(bytes.len() as int) =~= bytes);
        assert(sink.data.len() == before.data.len() + bytes.len());
        assert(sink.room() == before.room() - bytes.len());
        if block.len() <= sink.room() {
            assert(more.take(more.len() as int) =~= more);
            assert(block.take(block.len() as int) =~= block);
            assert(held.data =~= before.data + more);
        } else {
            assert(held.data =~= before.data + more.take(before.room() as int));
        }
    }
}

/// The end of the stream: a task and a sink that stand where `bytes` left
/// them end as the whole stream leaves them.
pub proof fn lemma_fed_end(
    index: usize,
    before: SinkState,
    bytes: Seq<u8>,
    writer: WriterState,
    sink: SinkState,
)
    requires
        mid_stream(index, before, bytes, writer, sink),
    ensures
        writer.fed(sink, None).1 == before.after_stream(bytes),
        writer.fed(sink, None).0.sink == index,
        writer.fed(sink, None).0.phase == if before.overflows(bytes) {
            WriterPhase::Failed(CopyError::ShortWrite { sink: index })
        } else {
            WriterPhase::Finished
        },
{
    assert(writer.fed(sink, None).1 =~= before.after_stream(bytes));
}

/// The writer loop: a task that has started and is given the blocks of a
/// stream in order stands where their bytes leave it. Told of the end of
/// the stream after them, it leaves its sink as the stream leaves it, and
/// it has failed, with a short write, if and only if the stream did not
/// fit.
pub proof fn lemma_fed_stream(index: usize, before: SinkState, blocks: Seq<Seq<u8>>)
    ensures
        ({
            let start = WriterState { sink: index, phase: WriterPhase::Ready };
            let (writer, sink) = start.fed_all(before, blocks);
            &&& mid_stream(index, before, concat(blocks), writer, sink)
            &&& writer.fed(sink, None).1 == before.after_stream(concat(blocks))
            &&& writer.fed(sink, None).0.outcome() == if before.overflows(concat(blocks)) {
                Err(CopyError::ShortWrite { sink: index })
            } else {
                Ok(())
            }
        }),
    decreases blocks.len(),
{
    let start = WriterState { sink: index, phase: WriterPhase::Ready };
    if blocks.len() == 0 {
        assert(concat(blocks) =~= Seq::<u8>::empty());
        assert(before.data + concat(blocks).take(0) =~= before.data);
    } else {
        lemma_fed_stream(index, before, blocks.drop_last());
        let (writer, sink) = start.fed_all(before, blocks.drop_last());
        lemma_fed_block(index, before, concat(blocks.drop_last()), writer, sink, blocks.last());
    }
    let (writer, sink) = start.fed_all(before, blocks);
    lemma_fed_end(index, before, concat(blocks), writer, sink);
}

/// A writer task with its subscription, which it alone holds. Ending the
/// task gives the subscription up, so that the producer never waits for a
/// task that takes no more blocks.
pub struct WriterTask {
    state: WriterState,
    subscription: BusReader<Vec<u8>>,
}

impl WriterTask {
    /// Where the task stands.
    pub closed spec fn state(&self) -> WriterState {
        self.state
    }

    /// The blocks that the task has taken from the channel, oldest first.
    pub closed spec fn received(&self) -> Seq<Seq<u8>> {
        reader_received(self.subscription)
    }

    /// A task for the sink with index `sink` around a subscription, not
    /// started.
    pub(crate) fn new(sink: usize, subscription: BusReader<Vec<u8>>) -> (task: WriterTask)
        ensures
            task.state() == (WriterState { sink, phase: WriterPhase::Idle }),
            task.received() == reader_received(subscription),
    {
        WriterTask { state: WriterState::new(sink), subscription }
    }

    /// Starts the task: `ok` says whether its destination could be opened.
    pub fn start(&mut self, ok: bool)
        ensures
            final(self).state() == old(self).state().opened(ok),
            final(self).received() == old(self).received(),
    {
        self.state.start(ok);
    }

    /// Waits for what the channel has next for the writer, and says what to do
    /// with it: write the block that came, or finalize the destination when
    /// the channel is closed and drained. A task that is not waiting for a
    /// block is told to stop, and the channel is left alone.
    pub fn next(&mut self) -> (action: WriterAction)
        ensures
            match action {
                WriterAction::Write(block) => {
                    &&& old(self).state().phase is Ready
                    &&& final(self).received() == old(self).received().push(block@)
                    &&& final(self).state() == old(self).state().received(Some(block.len()))
                },
                WriterAction::Finalize => {
                    &&& old(self).state().phase is Ready
                    &&& final(self).received() == old(self).received()
                    &&& final(self).state() == old(self).state().received(None)
                },
                WriterAction::Stop => {
                    &&& !(old(self).state().phase is Ready)
                    &&& final(self).received() == old(self).received()
                    &&& final(self).state() == old(self).state()
                },
            },
    {
        match self.state.phase {
            WriterPhase::Ready => {
                let received: Option<Vec<u8>> = match receive(&mut self.subscription) {
                    Ok(block) => Some(block),
                    Err(_) => None,
                };
                self.state.accept(received)
            },
            _ => WriterAction::Stop,
        }
    }

    /// Takes note of how the write under way ended.
    pub fn wrote(&mut self, accepted: Option<usize>)
        ensures
            final(self).state() == old(self).state().written(accepted),
            final(self).received() == old(self).received(),
    {
        self.state.wrote(accepted);
    }

    /// Takes note of how finalizing the destination ended.
    pub fn finalized(&mut self, ok: bool)
        ensures
            final(self).state() == old(self).state().closed(ok),
            final(self).received() == old(self).received(),
    {
        self.state.finalized(ok);
    }

    /// Whether the task has ended, well or not.
    pub fn done(&self) -> (done: bool)
        ensures
            done == self.state().is_done(),
    {
        self.state.done()
    }

    /// One turn of the task on a sink in memory: waits for the channel, and
    /// carries out on `sink` what came. Either nothing came but the end of
    /// the stream, or one block came; the sink was fed with what came.
    pub fn step(&mut self, sink: &mut MemorySink)
        ensures
            !(old(self).state().phase is Ready) ==> {
                &&& final(self).state() == old(self).state()
                &&& final(self).received() == old(self).received()
                &&& final(sink)@ == old(sink)@
            },
            old(self).state().phase is Ready ==> {
                let came = if final(self).received() == old(self).received() {
                    None
                } else {
                    Some(final(self).received().last())
                };
                &&& came is Some ==> final(self).received() == old(self).received().push(came->0)
                &&& (final(self).state(), final(sink)@) == old(self).state().fed(old(sink)@, came)
            },
    {
        match self.next() {
            WriterAction::Write(block) => {
                assert(old(self).received().push(block@).last() == block@);
                assert(old(self).received().push(block@).len() != old(self).received().len());
                let accepted: usize = sink.write(&block);
                self.wrote(Some(accepted));
            },
            WriterAction::Finalize => {
                let ok: bool = sink.sync();
                self.finalized(ok);
            },
            WriterAction::Stop => {},
        }
    }

    /// Ends the task and gives up its subscription. The result is the task's
    /// failure, if it has one.
    pub fn finish(self) -> (result: Result<(), CopyError>)
        ensures
            result == self.state().outcome(),
    {
        let WriterTask { state, subscription } = self;
        leave(subscription);
        state.result()
    }
}

} // verus!
