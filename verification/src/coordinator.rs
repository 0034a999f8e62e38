//! The coordinator: wiring before the run, and the one outcome after it.

use crate::channel::bus_depth;
use crate::channel::bus_sent;
use crate::channel::open;
use crate::channel::subscribe;
use crate::opts::Opts;
use crate::outcome::first_failure_at;
use crate::outcome::reports;
use crate::outcome::CopyError;
use crate::outcome::Outcome;
use crate::outcome::ReaderReport;
use crate::reader::ReaderPhase;
use crate::reader::ReaderState;
use crate::reader::ReaderTask;
use crate::writer::WriterPhase;
use crate::writer::WriterState;
use crate::writer::WriterTask;
use bus::Bus;
use bus::BusReader;
use vstd::prelude::*;

verus! {

/// Makes the channel of a run and its tasks: one writer task per sink, each
/// with a subscription of its own, and the reader task with the producer's
/// end. Every subscription exists before the reader can hand on a block, so
/// no sink misses one. The tasks are ready to be sent to their threads.
pub fn wire(opts: &Opts) -> (tasks: (ReaderTask, Vec<WriterTask>))
    requires
        opts.valid(),
    ensures
        tasks.0.state() == (ReaderState { phase: ReaderPhase::Idle, bytes_read: 0, blocks: 0 }),
        tasks.0.sent() == Seq::<Seq<u8>>::empty(),
        tasks.0.depth() == opts.block_buffer,
        tasks.1@.len() == opts.sinks(),
        forall|i: int|
            0 <= i < tasks.1@.len() ==> {
                &&& (#[trigger] tasks.1@[i]).state() == (WriterState {
                    sink: i as usize,
                    phase: WriterPhase::Idle,
                })
                &&& tasks.1@[i].received() == Seq::<Seq<u8>>::empty()
            },
{
    let mut bus: Bus<Vec<u8>> = open(opts.block_buffer);
    let count: usize = opts.sink_count();
    let mut writers: Vec<WriterTask> = Vec::new();
    let mut i: usize = 0;
    while i < count
        invariant
            i <= count,
            writers@.len() == i,
            bus_depth(bus) == opts.block_buffer,
            bus_sent(bus) == Seq::<Seq<u8>>::empty(),
            forall|j: int|
                0 <= j < i ==> {
                    &&& (#[trigger] writers@[j]).state() == (WriterState {
                        sink: j as usize,
                        phase: WriterPhase::Idle,
                    })
                    &&& writers@[j].received() == Seq::<Seq<u8>>::empty()
                },
        decreases count - i,
    {
        let subscription: BusReader<Vec<u8>> = subscribe(&mut bus);
        writers.push(WriterTask::new(i, subscription));
        i += 1;
    }
    (ReaderTask::new(bus), writers)
}

/// Folds the results of all tasks, each of which has been joined, into the
/// outcome of the run.
pub fn aggregate(reader: &ReaderReport, writers: &Vec<Result<(), CopyError>>) -> (outcome: Outcome)
    ensures
        outcome.bytes_read == reader.bytes_read,
        outcome.blocks == reader.blocks,
        outcome.sinks == writers@.len(),
        reports(reader.result, writers@, outcome.error),
{
    let mut error: Option<CopyError> = None;
    match reader.result {
        Err(e) => {
            error = Some(e);
        },
        Ok(_) => {
            let mut i: usize = 0;
            while i < writers.len() && error.is_none()
                invariant
                    i <= writers@.len(),
                    error is None ==> forall|j: int| 0 <= j < i ==> (#[trigger] writers@[j]) is Ok,
                    error matches Some(e) ==> first_failure_at(writers@, i - 1) && writers@[i - 1]
                        == Err::<(), CopyError>(e),
                decreases writers@.len() - i,
            {
                match writers[i] {
                    Err(e) => {
                        error = Some(e);
                    },
                    Ok(_) => {},
                }
                i += 1;
            }
        },
    }
    Outcome { bytes_read: reader.bytes_read, blocks: reader.blocks, sinks: writers.len(), error }
}

} // verus!
