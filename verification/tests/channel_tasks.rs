use bd::coordinator::wire;
use bd::opts::{Opts, SourceMode};
use bd::outcome::CopyError;
use bd::reader::ReaderTask;
use bd::sink::MemorySink;
use bd::source::{BlockSource, ReadRequest};
use bd::writer::{WriterAction, WriterTask};
use bus::Bus;

fn pattern(len: usize) -> Vec<u8> {
    (0..len).map(|i| (i * 31 % 251) as u8).collect()
}

fn drain(mut task: WriterTask) -> (Vec<Vec<u8>>, Result<(), CopyError>) {
    let mut blocks = Vec::new();
    task.start(true);
    loop {
        match task.next() {
            WriterAction::Write(block) => {
                let len = block.len();
                blocks.push(block);
                task.wrote(Some(len));
            }
            WriterAction::Finalize => {
                task.finalized(true);
            }
            WriterAction::Stop => break,
        }
    }
    assert!(task.done());
    (blocks, task.finish())
}

#[test]
fn wiring_makes_one_writer_task_per_destination() {
    let opts = Opts {
        output: Some(vec!["a".into(), "b".into(), "c".into()]),
        ..Opts::default()
    };
    let (reader, writers) = wire(&opts);
    assert_eq!(writers.len(), 3);
    assert_eq!(reader.next_request(), ReadRequest::Done);
    let report = reader.finish();
    assert_eq!(report.bytes_read, 0);
    assert_eq!(report.blocks, 0);
    assert!(report.result.is_ok());
    for task in writers {
        let (blocks, result) = drain(task);
        assert!(blocks.is_empty());
        assert_eq!(result, Ok(()));
    }
}

#[test]
fn wiring_falls_back_to_one_writer_task() {
    let (reader, writers) = wire(&Opts::default());
    assert_eq!(writers.len(), 1);
    drop(reader);
    let (reader, writers) = wire(&Opts { output: Some(Vec::new()), ..Opts::default() });
    assert_eq!(writers.len(), 1);
    drop(reader);
}

#[test]
fn every_subscription_takes_every_block_in_order() {
    let opts = Opts {
        input: Some("in".into()),
        output: Some(vec!["a".into(), "b".into()]),
        block_size: 10,
        block_buffer: 8,
        ..Opts::default()
    };
    let data = pattern(35);
    let (mut reader, writers) = wire(&opts);
    reader.pump(opts.source_mode(), opts.block_size, &data);
    assert_eq!(reader.next_request(), ReadRequest::Done);
    let report = reader.finish();
    assert_eq!(report.bytes_read, 35);
    assert_eq!(report.blocks, 4);
    assert!(report.result.is_ok());
    for task in writers {
        let (blocks, result) = drain(task);
        assert_eq!(result, Ok(()));
        assert_eq!(
            blocks,
            vec![data[0..10].to_vec(), data[10..20].to_vec(), data[20..30].to_vec(), data[30..35].to_vec()]
        );
    }
}

#[test]
fn delivered_block_is_the_block_that_a_writer_is_told_to_write() {
    let opts = Opts { block_buffer: 2, ..Opts::default() };
    let (mut reader, mut writers) = wire(&opts);
    let mut task = writers.pop().unwrap();
    reader.start(BlockSource::new(SourceMode::Stream, opts.block_size, 0));
    assert_eq!(reader.next_request(), ReadRequest::ReadToEnd);
    assert!(reader.deliver(vec![9, 8, 7]));
    assert_eq!(reader.next_request(), ReadRequest::Done);
    task.start(true);
    match task.next() {
        WriterAction::Write(block) => assert_eq!(block, vec![9, 8, 7]),
        other => panic!("{:?}", other),
    }
    task.wrote(Some(3));
    let report = reader.finish();
    assert_eq!(report.bytes_read, 3);
    assert_eq!(report.blocks, 1);
    assert!(matches!(task.next(), WriterAction::Finalize));
    task.finalized(true);
    assert!(matches!(task.next(), WriterAction::Stop));
    assert_eq!(task.finish(), Ok(()));
}

#[test]
fn block_that_answers_no_request_is_not_delivered() {
    let opts = Opts { input: Some("in".into()), block_size: 4, block_buffer: 4, ..Opts::default() };
    let (mut reader, mut writers) = wire(&opts);
    let task = writers.pop().unwrap();
    assert!(!reader.deliver(vec![1]));
    reader.start(BlockSource::new(SourceMode::ToEnd, 4, 6));
    assert_eq!(reader.next_request(), ReadRequest::Read(4));
    assert!(!reader.deliver(vec![1, 2, 3, 4, 5]));
    assert!(reader.deliver(vec![1, 2, 3, 4]));
    assert_eq!(reader.next_request(), ReadRequest::Read(2));
    assert!(reader.deliver(vec![5]));
    assert_eq!(reader.next_request(), ReadRequest::Read(1));
    assert!(reader.deliver(vec![6]));
    assert_eq!(reader.next_request(), ReadRequest::Done);
    assert!(!reader.deliver(vec![]));
    let report = reader.finish();
    assert_eq!(report.bytes_read, 6);
    assert_eq!(report.blocks, 3);
    let (blocks, _) = drain(task);
    assert_eq!(blocks, vec![vec![1, 2, 3, 4], vec![5], vec![6]]);
}

#[test]
fn failed_reader_still_closes_the_channel() {
    let opts = Opts { input: Some("in".into()), block_size: 4, block_buffer: 4, ..Opts::default() };
    let (mut reader, mut writers) = wire(&opts);
    let task = writers.pop().unwrap();
    reader.start(BlockSource::new(SourceMode::ToEnd, 4, 100));
    assert!(reader.deliver(vec![1, 2, 3, 4]));
    let report = reader.fail();
    assert_eq!(report.bytes_read, 4);
    assert_eq!(report.blocks, 1);
    assert_eq!(report.result, Err(CopyError::SourceRead));
    let (blocks, result) = drain(task);
    assert_eq!(blocks, vec![vec![1, 2, 3, 4]]);
    assert_eq!(result, Ok(()));
}

#[test]
fn writer_task_steps_fill_a_sink_in_memory() {
    let opts = Opts { input: Some("in".into()), block_size: 3, block_buffer: 8, ..Opts::default() };
    let data = pattern(8);
    let (mut reader, mut writers) = wire(&opts);
    let mut task = writers.pop().unwrap();
    reader.pump(SourceMode::ToEnd, 3, &data);
    reader.finish();
    let mut sink = MemorySink::new();
    task.start(true);
    task.step(&mut sink);
    assert_eq!(sink.data, data[..3].to_vec());
    task.step(&mut sink);
    task.step(&mut sink);
    assert_eq!(sink.data, data);
    assert!(!sink.synced);
    assert!(!task.done());
    task.step(&mut sink);
    assert!(sink.synced);
    assert!(task.done());
    task.step(&mut sink);
    assert_eq!(sink.data, data);
    assert_eq!(task.finish(), Ok(()));
}

#[test]
fn writer_task_on_a_full_sink_fails_with_a_short_write() {
    let opts = Opts { input: Some("in".into()), block_size: 3, block_buffer: 8, ..Opts::default() };
    let data = pattern(8);
    let (mut reader, mut writers) = wire(&opts);
    let mut task = writers.pop().unwrap();
    reader.pump(SourceMode::ToEnd, 3, &data);
    reader.finish();
    let mut sink = MemorySink::with_limit(4);
    task.start(true);
    task.step(&mut sink);
    assert!(!task.done());
    task.step(&mut sink);
    assert!(task.done());
    assert_eq!(sink.data, data[..4].to_vec());
    task.step(&mut sink);
    assert_eq!(sink.data, data[..4].to_vec());
    assert_eq!(task.finish(), Err(CopyError::ShortWrite { sink: 0 }));
}

#[test]
fn writer_task_whose_destination_cannot_be_opened_takes_no_block() {
    let opts = Opts { output: Some(vec!["a".into(), "b".into()]), block_buffer: 2, ..Opts::default() };
    let (reader, mut writers) = wire(&opts);
    let mut second = writers.pop().unwrap();
    let first = writers.pop().unwrap();
    second.start(false);
    assert!(second.done());
    assert!(matches!(second.next(), WriterAction::Stop));
    assert_eq!(second.finish(), Err(CopyError::SinkOpen { sink: 1 }));
    drop(reader);
    assert_eq!(drain(first).1, Ok(()));
}

#[test]
fn tasks_in_step_copy_more_blocks_than_the_channel_holds() {
    let opts = Opts {
        input: Some("in".into()),
        output: Some(vec!["a".into(), "b".into(), "c".into()]),
        block_size: 16,
        block_buffer: 2,
        ..Opts::default()
    };
    let data = pattern(16 * 200 + 5);
    let (mut reader, mut writers) = wire(&opts);
    let mut sinks = vec![MemorySink::new(), MemorySink::new(), MemorySink::new()];
    for task in writers.iter_mut() {
        task.start(true);
    }
    reader.start(BlockSource::new(opts.source_mode(), 16, data.len() as u64));
    let mut position = 0;
    while let ReadRequest::Read(size) = reader.next_request() {
        assert!(reader.deliver(data[position..position + size].to_vec()));
        position += size;
        for (task, sink) in writers.iter_mut().zip(sinks.iter_mut()) {
            task.step(sink);
        }
    }
    let report = reader.finish();
    assert_eq!(report.bytes_read, data.len());
    assert_eq!(report.blocks, 201);
    for (mut task, sink) in writers.into_iter().zip(sinks.iter_mut()) {
        assert!(!task.done());
        task.step(sink);
        assert!(task.done());
        assert!(sink.synced);
        assert_eq!(sink.data, data);
        assert_eq!(task.finish(), Ok(()));
    }
}

#[test]
fn bus_takes_no_more_unread_blocks_than_its_depth() {
    let mut bus: Bus<Vec<u8>> = Bus::new(3);
    let mut fast = bus.add_rx();
    let mut slow = bus.add_rx();
    for i in 0..3u8 {
        assert_eq!(bus.try_broadcast(vec![i]), Ok(()));
        assert_eq!(fast.try_recv(), Ok(vec![i]));
    }
    assert_eq!(bus.try_broadcast(vec![3]), Err(vec![3]));
    assert_eq!(slow.try_recv(), Ok(vec![0]));
    assert_eq!(bus.try_broadcast(vec![3]), Ok(()));
    assert_eq!(bus.try_broadcast(vec![4]), Err(vec![4]));
    drop(slow);
    assert_eq!(bus.try_broadcast(vec![4]), Ok(()));
    assert_eq!(fast.try_recv(), Ok(vec![3]));
    assert_eq!(fast.try_recv(), Ok(vec![4]));
}

#[test]
fn writer_task_that_ends_early_does_not_hold_the_producer_back() {
    let opts = Opts { output: Some(vec!["a".into(), "b".into()]), block_buffer: 1, ..Opts::default() };
    let (mut reader, mut writers) = wire(&opts);
    let mut failing = writers.pop().unwrap();
    let mut healthy = writers.pop().unwrap();
    let mut sink = MemorySink::new();
    healthy.start(true);
    failing.start(true);
    reader.start(BlockSource::new(SourceMode::Counted(20), 2, 0));
    assert!(reader.deliver(vec![0, 0]));
    healthy.step(&mut sink);
    match failing.next() {
        WriterAction::Write(block) => assert_eq!(block, vec![0, 0]),
        other => panic!("{:?}", other),
    }
    failing.wrote(Some(1));
    assert!(failing.done());
    assert_eq!(failing.finish(), Err(CopyError::ShortWrite { sink: 1 }));
    for i in 1..20u8 {
        assert!(reader.deliver(vec![i, i]));
        healthy.step(&mut sink);
    }
    let report = reader.finish();
    assert_eq!(report.blocks, 20);
    assert_eq!(report.bytes_read, 40);
    healthy.step(&mut sink);
    assert_eq!(healthy.finish(), Ok(()));
    assert_eq!(sink.data.len(), 40);
    assert_eq!(sink.data[38..], [19, 19]);
}

#[test]
fn reader_task_type_can_move_to_a_thread() {
    fn sendable<T: Send>() {}
    sendable::<ReaderTask>();
    sendable::<WriterTask>();
}
