use bd::block::read_at;
use bd::opts::{Opts, SourceMode, DEFAULT_BLOCK_BUFFER, DEFAULT_BLOCK_SIZE};
use bd::outcome::CopyError;
use bd::reader::{ReaderPhase, ReaderState};
use bd::sink::MemorySink;
use bd::source::{fetch, BlockSource, ReadRequest};
use bd::writer::{WriterAction, WriterPhase, WriterState};

#[test]
fn defaults_are_those_of_the_command_line() {
    let opts = Opts::default();
    assert!(opts.input.is_none());
    assert!(opts.output.is_none());
    assert_eq!(opts.block_size, 64000);
    assert_eq!(opts.block_buffer, 20);
    assert_eq!(opts.block_count, None);
    assert_eq!(DEFAULT_BLOCK_SIZE, 64000);
    assert_eq!(DEFAULT_BLOCK_BUFFER, 20);
    assert!(opts.is_valid());
}

#[test]
fn sizes_of_zero_are_not_valid() {
    assert!(!Opts { block_size: 0, ..Opts::default() }.is_valid());
    assert!(!Opts { block_buffer: 0, ..Opts::default() }.is_valid());
    assert!(Opts { block_size: 1, block_buffer: 1, ..Opts::default() }.is_valid());
    assert!(Opts { block_size: usize::MAX, ..Opts::default() }.is_valid());
}

#[test]
fn depth_that_no_ring_can_hold_is_not_valid() {
    assert!(!Opts { block_buffer: usize::MAX, ..Opts::default() }.is_valid());
    assert!(!Opts { block_buffer: usize::MAX / 128, ..Opts::default() }.is_valid());
    assert!(Opts { block_buffer: usize::MAX / 128 - 1, ..Opts::default() }.is_valid());
}

#[test]
fn sinks_are_counted_from_the_destinations() {
    assert_eq!(Opts::default().sink_count(), 1);
    assert_eq!(Opts { output: Some(vec![]), ..Opts::default() }.sink_count(), 1);
    assert_eq!(Opts { output: Some(vec!["a".into()]), ..Opts::default() }.sink_count(), 1);
    assert_eq!(
        Opts { output: Some(vec!["a".into(), "b".into(), "c".into()]), ..Opts::default() }.sink_count(),
        3
    );
}

#[test]
fn standard_output_is_the_destination_when_none_is_listed() {
    assert!(Opts::default().writes_to_stdout());
    assert!(Opts { output: Some(vec![]), ..Opts::default() }.writes_to_stdout());
    assert!(!Opts { output: Some(vec!["a".into()]), ..Opts::default() }.writes_to_stdout());
}

#[test]
fn mode_follows_input_and_count() {
    assert_eq!(Opts::default().source_mode(), SourceMode::Stream);
    assert_eq!(Opts { block_count: Some(4), ..Opts::default() }.source_mode(), SourceMode::Stream);
    assert_eq!(
        Opts { input: Some("in".into()), ..Opts::default() }.source_mode(),
        SourceMode::ToEnd
    );
    assert_eq!(
        Opts { input: Some("in".into()), block_count: Some(4), ..Opts::default() }.source_mode(),
        SourceMode::Counted(4)
    );
}

#[test]
fn read_in_memory_is_clipped_to_the_data() {
    let data = vec![10, 11, 12, 13, 14];
    assert_eq!(read_at(&data, 0, 2), vec![10, 11]);
    assert_eq!(read_at(&data, 3, 2), vec![13, 14]);
    assert_eq!(read_at(&data, 3, 10), vec![13, 14]);
    assert_eq!(read_at(&data, 5, 10), Vec::<u8>::new());
    assert_eq!(read_at(&data, 9, 10), Vec::<u8>::new());
    assert_eq!(read_at(&data, 2, 0), Vec::<u8>::new());
    assert_eq!(read_at(&data, 1, usize::MAX), vec![11, 12, 13, 14]);
    assert_eq!(read_at(&data, usize::MAX, usize::MAX), Vec::<u8>::new());
}

#[test]
fn fetch_carries_out_each_request() {
    let data = vec![1, 2, 3, 4, 5, 6, 7];
    assert_eq!(fetch(ReadRequest::Read(3), &data, 0), Some(vec![1, 2, 3]));
    assert_eq!(fetch(ReadRequest::Read(3), &data, 6), Some(vec![7]));
    assert_eq!(fetch(ReadRequest::Read(3), &data, 7), Some(vec![]));
    assert_eq!(fetch(ReadRequest::ReadToEnd, &data, 2), Some(vec![3, 4, 5, 6, 7]));
    assert_eq!(fetch(ReadRequest::ReadToEnd, &data, 7), Some(vec![]));
    assert_eq!(fetch(ReadRequest::Done, &data, 0), None);
    assert_eq!(fetch(ReadRequest::Read(3), &data, 100), Some(vec![]));
    assert_eq!(fetch(ReadRequest::ReadToEnd, &data, 100), Some(vec![]));
}

#[test]
fn walk_to_the_end_asks_for_full_blocks_and_for_what_is_left() {
    let mut source = BlockSource::new(SourceMode::ToEnd, 4, 10);
    assert_eq!(source, BlockSource::ToEnd { block_size: 4, position: 0, length: 10 });
    assert_eq!(source.next_request(), ReadRequest::Read(4));
    assert!(source.advance(4));
    assert_eq!(source.next_request(), ReadRequest::Read(4));
    assert!(source.advance(4));
    assert_eq!(source.next_request(), ReadRequest::Read(2));
    assert!(!source.advance(3));
    assert_eq!(source, BlockSource::ToEnd { block_size: 4, position: 8, length: 10 });
    assert!(source.advance(2));
    assert_eq!(source.next_request(), ReadRequest::Done);
    assert!(!source.advance(0));
}

#[test]
fn walk_to_the_end_goes_on_from_where_a_short_read_stopped() {
    let mut source = BlockSource::new(SourceMode::ToEnd, 4, 10);
    assert!(source.advance(1));
    assert_eq!(source.next_request(), ReadRequest::Read(4));
    assert!(source.advance(0));
    assert_eq!(source, BlockSource::ToEnd { block_size: 4, position: 1, length: 10 });
    assert!(source.advance(4));
    assert!(source.advance(4));
    assert_eq!(source.next_request(), ReadRequest::Read(1));
}

#[test]
fn walk_over_a_source_longer_than_memory_counts_in_64_bits() {
    let mut source = BlockSource::new(SourceMode::ToEnd, 4096, u64::MAX);
    assert_eq!(source.next_request(), ReadRequest::Read(4096));
    assert!(source.advance(4096));
    assert_eq!(source, BlockSource::ToEnd { block_size: 4096, position: 4096, length: u64::MAX });
    let near = BlockSource::ToEnd { block_size: 4096, position: u64::MAX - 5, length: u64::MAX };
    assert_eq!(near.next_request(), ReadRequest::Read(5));
}

#[test]
fn empty_source_walked_to_the_end_is_done_at_once() {
    let source = BlockSource::new(SourceMode::ToEnd, 4, 0);
    assert_eq!(source.next_request(), ReadRequest::Done);
}

#[test]
fn counted_walk_asks_for_as_many_blocks_as_counted() {
    let mut source = BlockSource::new(SourceMode::Counted(2), 8, 1000);
    assert_eq!(source, BlockSource::Counted { block_size: 8, remaining: 2 });
    assert_eq!(source.next_request(), ReadRequest::Read(8));
    assert!(source.advance(8));
    assert_eq!(source.next_request(), ReadRequest::Read(8));
    assert!(!source.advance(9));
    assert!(source.advance(0));
    assert_eq!(source.next_request(), ReadRequest::Done);
    assert!(!source.advance(0));
    assert_eq!(BlockSource::new(SourceMode::Counted(0), 8, 1000).next_request(), ReadRequest::Done);
}

#[test]
fn stream_is_taken_in_one_read() {
    let mut source = BlockSource::new(SourceMode::Stream, 8, 0);
    assert_eq!(source, BlockSource::Stream { taken: false });
    assert_eq!(source.next_request(), ReadRequest::ReadToEnd);
    assert!(source.advance(123456));
    assert_eq!(source, BlockSource::Stream { taken: true });
    assert_eq!(source.next_request(), ReadRequest::Done);
    assert!(!source.advance(0));
}

#[test]
fn sink_in_memory_takes_what_fits() {
    let mut sink = MemorySink::with_limit(5);
    assert_eq!(sink.write(&vec![1, 2, 3]), 3);
    assert_eq!(sink.write(&vec![4, 5, 6]), 2);
    assert_eq!(sink.data, vec![1, 2, 3, 4, 5]);
    assert_eq!(sink.write(&vec![7]), 0);
    assert_eq!(sink.write(&vec![]), 0);
    assert_eq!(sink.data, vec![1, 2, 3, 4, 5]);
    assert_eq!(sink.limit, 5);
    assert!(!sink.synced);
    assert!(sink.sync());
    assert!(sink.synced);
    assert_eq!(sink.write(&vec![]), 0);
    assert!(!sink.synced);
}

#[test]
fn sink_without_a_limit_takes_everything() {
    let mut sink = MemorySink::new();
    assert_eq!(sink.limit, usize::MAX);
    assert!(sink.data.is_empty());
    let block: Vec<u8> = (0..=255).collect();
    assert_eq!(sink.write(&block), 256);
    assert_eq!(sink.write(&block), 256);
    assert_eq!(sink.data.len(), 512);
    assert_eq!(sink.data[256..], block[..]);
}

#[test]
fn writer_goes_from_idle_to_finished() {
    let mut writer = WriterState::new(3);
    assert_eq!(writer, WriterState { sink: 3, phase: WriterPhase::Idle });
    assert!(matches!(writer.accept(Some(vec![1])), WriterAction::Stop));
    assert_eq!(writer.phase, WriterPhase::Idle);
    writer.start(true);
    assert_eq!(writer.phase, WriterPhase::Ready);
    writer.start(false);
    assert_eq!(writer.phase, WriterPhase::Ready);
    match writer.accept(Some(vec![1, 2])) {
        WriterAction::Write(block) => assert_eq!(block, vec![1, 2]),
        other => panic!("{:?}", other),
    }
    assert_eq!(writer.phase, WriterPhase::Busy(2));
    assert!(matches!(writer.accept(Some(vec![3])), WriterAction::Stop));
    writer.finalized(true);
    assert_eq!(writer.phase, WriterPhase::Busy(2));
    writer.wrote(Some(2));
    assert_eq!(writer.phase, WriterPhase::Ready);
    writer.wrote(Some(0));
    assert_eq!(writer.phase, WriterPhase::Ready);
    assert!(!writer.done());
    assert!(matches!(writer.accept(None), WriterAction::Finalize));
    assert_eq!(writer.phase, WriterPhase::Closing);
    writer.finalized(true);
    assert_eq!(writer.phase, WriterPhase::Finished);
    assert!(writer.done());
    assert_eq!(writer.result(), Ok(()));
    assert!(matches!(writer.accept(None), WriterAction::Stop));
    assert_eq!(writer.phase, WriterPhase::Finished);
}

#[test]
fn writer_fails_when_its_destination_cannot_be_opened() {
    let mut writer = WriterState::new(2);
    writer.start(false);
    assert_eq!(writer.phase, WriterPhase::Failed(CopyError::SinkOpen { sink: 2 }));
    assert!(writer.done());
    assert_eq!(writer.result(), Err(CopyError::SinkOpen { sink: 2 }));
    assert!(matches!(writer.accept(Some(vec![1])), WriterAction::Stop));
}

#[test]
fn writer_fails_on_a_short_write() {
    let mut writer = WriterState::new(1);
    writer.start(true);
    writer.accept(Some(vec![1, 2, 3]));
    writer.wrote(Some(2));
    assert_eq!(writer.phase, WriterPhase::Failed(CopyError::ShortWrite { sink: 1 }));
    assert_eq!(writer.result(), Err(CopyError::ShortWrite { sink: 1 }));
    writer.wrote(Some(3));
    writer.finalized(true);
    assert_eq!(writer.result(), Err(CopyError::ShortWrite { sink: 1 }));
}

#[test]
fn writer_fails_when_a_write_fails() {
    let mut writer = WriterState::new(0);
    writer.start(true);
    writer.accept(Some(vec![1, 2, 3]));
    writer.wrote(None);
    assert_eq!(writer.result(), Err(CopyError::SinkWrite { sink: 0 }));
    assert!(writer.done());
}

#[test]
fn writer_fails_when_its_destination_cannot_be_finalized() {
    let mut writer = WriterState::new(4);
    writer.start(true);
    writer.accept(None);
    writer.finalized(false);
    assert_eq!(writer.result(), Err(CopyError::SinkWrite { sink: 4 }));
}

#[test]
fn writer_takes_an_empty_block_as_written_in_full() {
    let mut writer = WriterState::new(0);
    writer.start(true);
    writer.accept(Some(vec![]));
    assert_eq!(writer.phase, WriterPhase::Busy(0));
    writer.wrote(Some(0));
    assert_eq!(writer.phase, WriterPhase::Ready);
}

#[test]
fn writer_fed_in_memory_writes_and_finalizes() {
    let mut writer = WriterState::new(0);
    let mut sink = MemorySink::with_limit(4);
    writer.feed(&mut sink, Some(vec![1, 2]));
    assert!(sink.data.is_empty());
    writer.start(true);
    writer.feed(&mut sink, Some(vec![1, 2]));
    assert_eq!(sink.data, vec![1, 2]);
    assert_eq!(writer.phase, WriterPhase::Ready);
    writer.feed(&mut sink, Some(vec![3, 4]));
    assert_eq!(writer.phase, WriterPhase::Ready);
    writer.feed(&mut sink, None);
    assert_eq!(writer.phase, WriterPhase::Finished);
    assert!(sink.synced);
    assert_eq!(sink.data, vec![1, 2, 3, 4]);
    let mut late = WriterState::new(1);
    late.start(true);
    late.feed(&mut sink, Some(vec![5]));
    assert_eq!(late.phase, WriterPhase::Failed(CopyError::ShortWrite { sink: 1 }));
    assert!(!sink.synced);
    late.feed(&mut sink, None);
    assert!(!sink.synced);
}

#[test]
fn reader_counts_what_it_hands_on() {
    let mut reader = ReaderState::new();
    assert_eq!(reader, ReaderState { phase: ReaderPhase::Idle, bytes_read: 0, blocks: 0 });
    assert_eq!(reader.next_request(), ReadRequest::Done);
    assert!(!reader.record(0));
    reader.start(BlockSource::new(SourceMode::ToEnd, 4, 6));
    assert_eq!(reader.next_request(), ReadRequest::Read(4));
    assert!(reader.record(4));
    assert!(!reader.record(3));
    assert!(reader.record(2));
    assert_eq!(reader.bytes_read, 6);
    assert_eq!(reader.blocks, 2);
    assert_eq!(reader.next_request(), ReadRequest::Done);
    reader.start(BlockSource::new(SourceMode::Stream, 4, 0));
    assert_eq!(reader.next_request(), ReadRequest::Done);
    reader.finish();
    assert_eq!(reader.phase, ReaderPhase::Finished);
    reader.fail();
    assert_eq!(reader.phase, ReaderPhase::Finished);
    let report = reader.report();
    assert_eq!(report.bytes_read, 6);
    assert_eq!(report.blocks, 2);
    assert_eq!(report.result, Ok(()));
}

#[test]
fn reader_that_fails_keeps_its_counts() {
    let mut reader = ReaderState::new();
    reader.start(BlockSource::new(SourceMode::Counted(5), 4, 0));
    assert!(reader.record(4));
    assert!(reader.record(1));
    reader.fail();
    assert_eq!(reader.phase, ReaderPhase::Failed);
    reader.finish();
    assert_eq!(reader.phase, ReaderPhase::Failed);
    assert!(!reader.record(4));
    let report = reader.report();
    assert_eq!(report.bytes_read, 5);
    assert_eq!(report.blocks, 2);
    assert_eq!(report.result, Err(CopyError::SourceRead));
}

#[test]
fn reader_that_cannot_open_its_source_fails_before_it_starts() {
    let mut reader = ReaderState::new();
    reader.fail();
    let report = reader.report();
    assert_eq!(report.bytes_read, 0);
    assert_eq!(report.result, Err(CopyError::SourceRead));
}

#[test]
fn reader_refuses_a_block_that_its_byte_count_has_no_room_for() {
    let mut reader = ReaderState {
        phase: ReaderPhase::Reading(BlockSource::new(SourceMode::Stream, 1, 0)),
        bytes_read: usize::MAX - 2,
        blocks: 7,
    };
    assert!(!reader.record(3));
    assert_eq!(reader.bytes_read, usize::MAX - 2);
    assert_eq!(reader.blocks, 7);
    assert!(reader.record(2));
    assert_eq!(reader.bytes_read, usize::MAX);
    assert_eq!(reader.blocks, 8);
}
