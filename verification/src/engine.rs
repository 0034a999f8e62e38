//! A run on a source and sinks held in memory: the same walk over the source
//! and the same writer tasks as a run on files, on one thread. Each block
//! goes straight from the reader to every writer, one sink after the other,
//! with no channel between them; `lemma_channel_run_agrees` says why a run
//! on a channel comes to the same.

use crate::block::concat;
use crate::block::lemma_block_size;
use crate::block::lemma_concat_push;
use crate::block::lemma_plan_concat;
use crate::block::plan;
use crate::block::stream;
use crate::coordinator::aggregate;
use crate::opts::Opts;
use crate::opts::SourceMode;
use crate::outcome::first_failure_at;
use crate::outcome::reports;
use crate::outcome::CopyError;
use crate::outcome::Outcome;
use crate::outcome::ReaderReport;
use crate::reader::ReaderPhase;
use crate::reader::ReaderState;
use crate::sink::MemorySink;
use crate::sink::SinkState;
use crate::source::fetch;
use crate::source::lemma_walk_start;
use crate::source::lemma_walk_step;
use crate::source::rest;
use crate::source::walked;
use crate::source::BlockSource;
use crate::writer::lemma_fed_block;
use crate::writer::lemma_fed_end;
use crate::writer::lemma_fed_stream;
use crate::writer::mid_stream;
use crate::writer::WriterPhase;
use crate::writer::WriterState;
use vstd::prelude::*;

verus! {

/// How the writer task of the sink with index `sink` ends when `bytes` are
/// sent its way: with a short write if they do not fit, and well if they do.
pub open spec fn writer_result(sink: usize, before: SinkState, bytes: Seq<u8>) -> Result<
    (),
    CopyError,
> {
    if before.overflows(bytes) {
        Err(CopyError::ShortWrite { sink })
    } else {
        Ok(())
    }
}

/// How all the writer tasks end when `bytes` are sent their way.
pub open spec fn writer_results(before: Seq<MemorySink>, bytes: Seq<u8>) -> Seq<
    Result<(), CopyError>,
> {
    Seq::new(before.len(), |i: int| writer_result(i as usize, before[i]@, bytes))
}

/// What a run does: `outcome` and the sinks `after` are what comes of
/// copying `input` to the sinks `before`.
///
/// Every sink gets the stream of the source, whole and in order, behind
/// what it held, or as much of it as it has room for. A sink that took it
/// all is finalized. A sink that could not is left as the short write left
/// it, and the first such sink is the failure of the run. No sink depends on
/// another. The counts are those of the source, whatever the sinks did.
pub open spec fn ran(
    opts: Opts,
    input: Seq<u8>,
    before: Seq<MemorySink>,
    outcome: Outcome,
    after: Seq<MemorySink>,
) -> bool {
    let bytes = stream(opts.mode(), input, opts.block_size as nat);
    &&& outcome.bytes_read == bytes.len()
    &&& outcome.blocks == plan(opts.mode(), input, opts.block_size as nat).len()
    &&& outcome.sinks == before.len()
    &&& after.len() == before.len()
    &&& forall|i: int|
        0 <= i < before.len() ==> (#[trigger] after[i])@ == before[i]@.after_stream(bytes)
    &&& reports(Ok(()), writer_results(before, bytes), outcome.error)
}

/// Every task and its sink stand where `bytes` left them.
spec fn all_mid_stream(
    before: Seq<MemorySink>,
    bytes: Seq<u8>,
    writers: Seq<WriterState>,
    sinks: Seq<MemorySink>,
) -> bool {
    &&& writers.len() == before.len()
    &&& sinks.len() == before.len()
    &&& forall|i: int|
        0 <= i < before.len() ==> mid_stream(
            i as usize,
            before[i]@,
            bytes,
            #[trigger] writers[i],
            sinks[i]@,
        )
}

/// A writer task for each of `count` sinks, started on a destination that
/// is open.
fn start_writers(count: usize) -> (writers: Vec<WriterState>)
    ensures
        writers@.len() == count,
        forall|i: int|
            0 <= i < count ==> (#[trigger] writers@[i]) == (WriterState {
                sink: i as usize,
                phase: WriterPhase::Ready,
            }),
{
    let mut writers: Vec<WriterState> = Vec::new();
    let mut i: usize = 0;
    while i < count
        invariant
            i <= count,
            writers@.len() == i,
            forall|j: int|
                0 <= j < i ==> (#[trigger] writers@[j]) == (WriterState {
                    sink: j as usize,
                    phase: WriterPhase::Ready,
                }),
        decreases count - i,
    {
        let mut writer: WriterState = WriterState::new(i);
        writer.start(true);
        writers.push(writer);
        i += 1;
    }
    writers
}

/// Gives one block to every writer task, each with its own copy.
fn hand_out(
    block: &Vec<u8>,
    writers: &mut Vec<WriterState>,
    sinks: &mut Vec<MemorySink>,
    Ghost(before): Ghost<Seq<MemorySink>>,
    Ghost(bytes): Ghost<Seq<u8>>,
)
    requires
        all_mid_stream(before, bytes, old(writers)@, old(sinks)@),
    ensures
        all_mid_stream(before, bytes + block@, final(writers)@, final(sinks)@),
{
    let count: usize = writers.len();
    let mut i: usize = 0;
    while i < count
        invariant
            i <= count,
            count == before.len(),
            writers@.len() == count,
            sinks@.len() == count,
            forall|j: int|
                0 <= j < i ==> mid_stream(
                    j as usize,
                    before[j]@,
                    bytes + block@,
                    #[trigger] writers@[j],
                    sinks@[j]@,
                ),
            forall|j: int|
                i <= j < count ==> mid_stream(
                    j as usize,
                    before[j]@,
                    bytes,
                    #[trigger] writers@[j],
                    sinks@[j]@,
                ),
        decreases count - i,
    {
        let copy: Vec<u8> = block.clone();
        assert(copy@ =~= block@);
        let mut writer: WriterState = writers[i];
        proof {
            lemma_fed_block(i, before[i as int]@, bytes, writer, sinks@[i as int]@, block@);
        }
        writer.feed(&mut sinks[i], Some(copy));
        writers[i] = writer;
        i += 1;
    }
}

/// Tells every writer task that the stream is at its end.
fn close_all(
    writers: &mut Vec<WriterState>,
    sinks: &mut Vec<MemorySink>,
    Ghost(before): Ghost<Seq<MemorySink>>,
    Ghost(bytes): Ghost<Seq<u8>>,
)
    requires
        all_mid_stream(before, bytes, old(writers)@, old(sinks)@),
    ensures
        final(writers)@.len() == before.len(),
        final(sinks)@.len() == before.len(),
        forall|i: int|
            0 <= i < before.len() ==> {
                &&& (#[trigger] final(sinks)@[i])@ == before[i]@.after_stream(bytes)
                &&& final(writers)@[i].outcome() == writer_result(i as usize, before[i]@, bytes)
            },
{
    let count: usize = writers.len();
    let mut i: usize = 0;
    while i < count
        invariant
            i <= count,
            count == before.len(),
            writers@.len() == count,
            sinks@.len() == count,
            forall|j: int|
                0 <= j < i ==> {
                    &&& (#[trigger] sinks@[j])@ == before[j]@.after_stream(bytes)
                    &&& writers@[j].outcome() == writer_result(j as usize, before[j]@, bytes)
                },
            forall|j: int|
                i <= j < count ==> mid_stream(
                    j as usize,
                    before[j]@,
                    bytes,
                    #[trigger] writers@[j],
                    sinks@[j]@,
                ),
        decreases count - i,
    {
        let mut writer: WriterState = writers[i];
        proof {
            lemma_fed_end(i, before[i as int]@, bytes, writer, sinks@[i as int]@);
        }
        writer.feed(&mut sinks[i], None);
        writers[i] = writer;
        i += 1;
    }
}

/// The result of every writer task, in the order of the sinks.
fn results_of(writers: &Vec<WriterState>) -> (results: Vec<Result<(), CopyError>>)
    ensures
        results@.len() == writers@.len(),
        forall|i: int| 0 <= i < writers@.len() ==> (#[trigger] results@[i]) == writers@[i].outcome(),
{
    let mut results: Vec<Result<(), CopyError>> = Vec::new();
    let mut i: usize = 0;
    while i < writers.len()
        invariant
            i <= writers@.len(),
            results@.len() == i,
            forall|j: int| 0 <= j < i ==> (#[trigger] results@[j]) == writers@[j].outcome(),
        decreases writers@.len() - i,
    {
        results.push(writers[i].result());
        i += 1;
    }
    results
}

/// As many empty sinks, without a limit, as the run has destinations.
pub fn sinks_for(opts: &Opts) -> (sinks: Vec<MemorySink>)
    ensures
        sinks@.len() == opts.sinks(),
        forall|i: int|
            0 <= i < sinks@.len() ==> (#[trigger] sinks@[i])@ == (SinkState {
                data: Seq::empty(),
                limit: usize::MAX as nat,
                synced: false,
            }),
{
    let count: usize = opts.sink_count();
    let mut sinks: Vec<MemorySink> = Vec::new();
    let mut i: usize = 0;
    while i < count
        invariant
            i <= count,
            sinks@.len() == i,
            forall|j: int|
                0 <= j < i ==> (#[trigger] sinks@[j])@ == (SinkState {
                    data: Seq::empty(),
                    limit: usize::MAX as nat,
                    synced: false,
                }),
        decreases count - i,
    {
        sinks.push(MemorySink::new());
        i += 1;
    }
    sinks
}

/// Copies `input` to every sink, block by block.
///
/// The source is walked as `opts` asks: in one block if no input is named,
/// in as many blocks as are counted, or to its end. Each block goes to
/// every sink whose writer task is still writing. At the end of the source
/// the sinks are finalized and the results of all tasks fold into the
/// outcome.
pub fn run(opts: &Opts, input: &Vec<u8>, sinks: &mut Vec<MemorySink>) -> (outcome: Outcome)
    requires
        opts.block_size > 0,
    ensures
        ran(*opts, input@, old(sinks)@, outcome, final(sinks)@),
{
    let ghost before: Seq<MemorySink> = sinks@;
    let mode = opts.source_mode();
    let mut writers: Vec<WriterState> = start_writers(sinks.len());
    let mut reader: ReaderState = ReaderState::new();
    reader.start(BlockSource::new(mode, opts.block_size, input.len() as u64));
    let mut position: usize = 0;
    let ghost done: Seq<Seq<u8>> = Seq::empty();
    proof {
        assert(input@.len() <= usize::MAX);
        lemma_walk_start(mode, opts.block_size, input@);
        assert forall|i: int| 0 <= i < before.len() implies mid_stream(
            i as usize,
            before[i]@,
            concat(done),
            #[trigger] writers@[i],
            sinks@[i]@,
        ) by {
            assert(before[i]@.data + concat(done).take(0) =~= before[i]@.data);
        }
    }
    loop
        invariant
            mode == opts.mode(),
            reader.phase matches ReaderPhase::Reading(source) && walked(
                mode,
                opts.block_size,
                input@,
                source,
                position as int,
                done,
            ),
            plan(mode, input@, opts.block_size as nat).len() <= usize::MAX,
            input@.len() <= usize::MAX,
            reader.bytes_read == position,
            reader.blocks == done.len(),
            all_mid_stream(before, concat(done), writers@, sinks@),
        ensures
            reader.phase is Reading,
            done == plan(opts.mode(), input@, opts.block_size as nat),
            reader.bytes_read == concat(done).len(),
            reader.blocks == done.len(),
            all_mid_stream(before, concat(done), writers@, sinks@),
        decreases rest(reader.phase->Reading_0, input@.skip(position as int)).len(),
    {
        proof {
            lemma_walk_step(
                mode,
                opts.block_size,
                input@,
                reader.phase->Reading_0,
                position as int,
                done,
            );
        }
        match fetch(reader.next_request(), input, position) {
            Some(block) => {
                let ok: bool = reader.record(block.len());
                assert(ok);
                position = position + block.len();
                hand_out(&block, &mut writers, sinks, Ghost(before), Ghost(concat(done)));
                proof {
                    lemma_concat_push(done, block@);
                    done = done.push(block@);
                }
            },
            None => {
                break ;
            },
        }
    }
    reader.finish();
    close_all(&mut writers, sinks, Ghost(before), Ghost(concat(done)));
    let results: Vec<Result<(), CopyError>> = results_of(&writers);
    let report: ReaderReport = reader.report();
    proof {
        lemma_plan_concat(opts.mode(), input@, opts.block_size as nat);
        assert forall|i: int| 0 <= i < before.len() implies results@[i] == writer_results(
            before,
            concat(done),
        )[i] by {
            assert(sinks@[i]@ == before[i]@.after_stream(concat(done)));
        }
        assert(results@ =~= writer_results(before, concat(done)));
    }
    aggregate(&report, &results)
}

/// Completeness: a run that walks its source to the end leaves in every
/// sink that was empty and has room for the input exactly the input, byte
/// for byte: nothing missing, nothing twice, nothing out of place. A count
/// that reaches the end of the input is as good as none.
pub proof fn lemma_copy_is_complete(
    opts: Opts,
    input: Seq<u8>,
    before: Seq<MemorySink>,
    outcome: Outcome,
    after: Seq<MemorySink>,
    i: int,
)
    requires
        opts.block_size > 0,
        ran(opts, input, before, outcome, after),
        0 <= i < before.len(),
        before[i]@.data.len() == 0,
        input.len() <= before[i]@.limit,
        opts.mode() matches SourceMode::Counted(count) ==> count * opts.block_size >= input.len(),
    ensures
        after[i]@.data == input,
        after[i]@.synced,
        outcome.bytes_read == input.len(),
        concat(plan(opts.mode(), input, opts.block_size as nat)) == input,
{
    let bytes = stream(opts.mode(), input, opts.block_size as nat);
    lemma_plan_concat(opts.mode(), input, opts.block_size as nat);
    assert(bytes =~= input);
    assert(after[i]@.data =~= input);
}

/// Fan-out: after a run without a failure, any two sinks that were empty
/// hold the same bytes.
pub proof fn lemma_sinks_agree(
    opts: Opts,
    input: Seq<u8>,
    before: Seq<MemorySink>,
    outcome: Outcome,
    after: Seq<MemorySink>,
    i: int,
    j: int,
)
    requires
        ran(opts, input, before, outcome, after),
        outcome.error is None,
        0 <= i < before.len(),
        0 <= j < before.len(),
        before[i]@.data.len() == 0,
        before[j]@.data.len() == 0,
    ensures
        after[i]@.data == after[j]@.data,
        after[i]@.data == stream(opts.mode(), input, opts.block_size as nat),
{
    let bytes = stream(opts.mode(), input, opts.block_size as nat);
    let results = writer_results(before, bytes);
    assert(results[i] is Ok);
    assert(results[j] is Ok);
    assert(after[i]@.data =~= bytes);
    assert(after[j]@.data =~= bytes);
}

/// Count limiting: when `count` blocks are asked for and the source holds
/// at least that many full blocks, exactly `count` blocks are handed on,
/// each of them full, and `count * block_size` bytes are read, whatever
/// the source holds beyond them.
pub proof fn lemma_count_limits_the_run(
    opts: Opts,
    input: Seq<u8>,
    before: Seq<MemorySink>,
    outcome: Outcome,
    after: Seq<MemorySink>,
    count: usize,
)
    requires
        opts.block_size > 0,
        ran(opts, input, before, outcome, after),
        opts.mode() == SourceMode::Counted(count),
        input.len() >= count * opts.block_size,
    ensures
        outcome.blocks == count,
        outcome.bytes_read == count * opts.block_size,
        forall|k: int|
            0 <= k < count ==> (#[trigger] plan(opts.mode(), input, opts.block_size as nat)[k]).len()
                == opts.block_size,
{
    let size = opts.block_size as nat;
    assert forall|k: int| 0 <= k < count implies (#[trigger] plan(opts.mode(), input, size)[k]).len()
        == size by {
        lemma_block_size(input, size, k);
        assert((k + 1) * size <= count * size) by (nonlinear_arith)
            requires
                0 <= k < count,
        ;
    }
}

/// Independent failure: when just one sink has no room for the stream,
/// every other sink still gets the whole stream and is finalized, the whole
/// source is read, and the run reports the failure of that one sink.
pub proof fn lemma_failure_stays_with_its_sink(
    opts: Opts,
    input: Seq<u8>,
    before: Seq<MemorySink>,
    outcome: Outcome,
    after: Seq<MemorySink>,
    failing: int,
)
    requires
        ran(opts, input, before, outcome, after),
        0 <= failing < before.len(),
        forall|i: int|
            0 <= i < before.len() ==> ((#[trigger] before[i])@.overflows(
                stream(opts.mode(), input, opts.block_size as nat),
            ) <==> i == failing),
    ensures
        forall|i: int|
            0 <= i < before.len() && i != failing ==> {
                &&& (#[trigger] after[i])@.data == before[i]@.data + stream(
                    opts.mode(),
                    input,
                    opts.block_size as nat,
                )
                &&& after[i]@.synced
            },
        outcome.error == Some(CopyError::ShortWrite { sink: failing as usize }),
        outcome.bytes_read == stream(opts.mode(), input, opts.block_size as nat).len(),
{
    let bytes = stream(opts.mode(), input, opts.block_size as nat);
    let results = writer_results(before, bytes);
    assert forall|i: int| 0 <= i < before.len() && i != failing implies (#[trigger] after[i])@.data
        == before[i]@.data + bytes && after[i]@.synced by {
        assert(!before[i]@.overflows(bytes));
        assert(bytes.take(bytes.len() as int) =~= bytes);
    }
    assert(before[failing]@.overflows(bytes));
    assert(results[failing] is Err);
    match outcome.error {
        Some(e) => {
            let at = choose|i: int| first_failure_at(results, i) && results[i] == Err::<(), CopyError>(e);
            assert(results[at] is Err);
            assert(before[at]@.overflows(bytes));
            assert(at == failing);
        },
        None => {
            assert(results[failing] is Ok);
        },
    }
}

/// The tasks of a run on a channel come to what a run in memory comes to.
/// When the reader task has handed the blocks of its plan to the channel, as
/// `ReaderTask::pump` does, and a writer task that has started takes from its
/// subscription exactly those blocks, in their order, and the end of the
/// stream after them, turn by turn as `WriterTask::step` does, the task
/// leaves its sink, and ends, as `ran` says. That a subscription yields
/// what was handed to the channel is what the channel is trusted with.
pub proof fn lemma_channel_run_agrees(
    opts: Opts,
    input: Seq<u8>,
    index: usize,
    before: SinkState,
    sent: Seq<Seq<u8>>,
    received: Seq<Seq<u8>>,
)
    requires
        opts.block_size > 0,
        sent == plan(opts.mode(), input, opts.block_size as nat),
        received == sent,
    ensures
        ({
            let bytes = stream(opts.mode(), input, opts.block_size as nat);
            let start = WriterState { sink: index, phase: WriterPhase::Ready };
            let (writer, sink) = start.fed_all(before, received);
            &&& writer.fed(sink, None).1 == before.after_stream(bytes)
            &&& writer.fed(sink, None).0.outcome() == writer_result(index, before, bytes)
        }),
{
    lemma_plan_concat(opts.mode(), input, opts.block_size as nat);
    lemma_fed_stream(index, before, received);
}

} // verus!
