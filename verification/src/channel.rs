//! The broadcast channel: `bus::Bus` and its readers, behind contracts.
//!
//! The bus belongs to the `bus` crate and nothing of it is proved here. The
//! two ends of a channel live on different threads, so the contracts below
//! say of it only what one end can know by itself: how deep the bus was
//! made, which blocks the producer has handed to it, and which blocks a
//! reader has taken from it. That a reader takes exactly the blocks that
//! were handed over after it joined, in their order, and that no reader is
//! ever more than the depth behind, is the crate's own promise; nothing here
//! rests on it but what is said so.

use bus::Bus;
use bus::BusReader;
use std::sync::mpsc::RecvError;
use vstd::prelude::*;

verus! {

/// `bus::Bus<T>`, the producer's end of the channel, as an opaque value.
#[verifier::external_type_specification]
#[verifier::external_body]
#[verifier::reject_recursive_types(T)]
pub struct ExBus<T>(Bus<T>);

/// `bus::BusReader<T>`, one consumer's end of the channel, as an opaque
/// value.
#[verifier::external_type_specification]
#[verifier::external_body]
#[verifier::reject_recursive_types(T)]
pub struct ExBusReader<T>(BusReader<T>);

/// `std::sync::mpsc::RecvError`, which `BusReader::recv` returns once the bus
/// is gone and nothing is left to take. It carries no data.
#[verifier::external_type_specification]
#[verifier::external_body]
pub struct ExRecvError(RecvError);

/// The length that the bus was made with: the number of blocks it holds for
/// its slowest reader before a broadcast has to wait.
pub uninterp spec fn bus_depth(bus: Bus<Vec<u8>>) -> nat;

/// The blocks that have been handed to the bus since it was made, oldest
/// first.
pub uninterp spec fn bus_sent(bus: Bus<Vec<u8>>) -> Seq<Seq<u8>>;

/// The blocks that the reader has taken from its bus since it joined, oldest
/// first.
pub uninterp spec fn reader_received(reader: BusReader<Vec<u8>>) -> Seq<Seq<u8>>;

/// A depth that a bus can be made with: positive, and small enough that the
/// ring of `depth + 1` seats can be addressed.
pub open spec fn depth_fits(depth: usize) -> bool {
    0 < depth < usize::MAX / 128
}

/// Whether a bus can be made with this depth.
pub fn usable_depth(depth: usize) -> (ok: bool)
    ensures
        ok == depth_fits(depth),
{
    0 < depth && depth < usize::MAX / 128
}

/// `bus::Bus::new`: a new bus of the given depth, to which nothing has been
/// handed yet. A depth of zero is left out because such a bus never shows a
/// reader anything; a depth near `usize::MAX` because the ring could not be
/// allocated.
#[verifier::external_body]
pub(crate) fn open(depth: usize) -> (bus: Bus<Vec<u8>>)
    requires
        depth_fits(depth),
    ensures
        bus_depth(bus) == depth,
        bus_sent(bus) == Seq::<Seq<u8>>::empty(),
{
    Bus::new(depth)
}

/// `bus::Bus::add_rx`: a new reader, which has taken nothing yet and will be
/// shown the blocks handed to the bus from now on. The bus keeps its depth
/// and its record of what was handed to it.
#[verifier::external_body]
pub(crate) fn subscribe(bus: &mut Bus<Vec<u8>>) -> (reader: BusReader<Vec<u8>>)
    ensures
        bus_depth(*final(bus)) == bus_depth(*old(bus)),
        bus_sent(*final(bus)) == bus_sent(*old(bus)),
        reader_received(reader) == Seq::<Seq<u8>>::empty(),
{
    bus.add_rx()
}

/// `bus::Bus::broadcast`: hands `block` to the bus, for every reader that has
/// joined. It returns once the bus has taken the block, and waits as long as
/// some reader is a full depth behind.
#[verifier::external_body]
pub(crate) fn broadcast(bus: &mut Bus<Vec<u8>>, block: Vec<u8>)
    ensures
        bus_depth(*final(bus)) == bus_depth(*old(bus)),
        bus_sent(*final(bus)) == bus_sent(*old(bus)).push(block@),
{
    bus.broadcast(block)
}

/// `bus::BusReader::recv`: waits for the next block and takes it, or reports
/// that the bus is gone and nothing is left. Which of the two happens, and
/// which block comes, is for the bus to say; the contract records only that
/// a block returned is a block taken.
#[verifier::external_body]
pub(crate) fn receive(reader: &mut BusReader<Vec<u8>>) -> (res: Result<Vec<u8>, RecvError>)
    ensures
        match res {
            Ok(block) => reader_received(*final(reader)) == reader_received(*old(reader)).push(
                block@,
            ),
            Err(_) => reader_received(*final(reader)) == reader_received(*old(reader)),
        },
{
    reader.recv()
}

/// Closes the channel by giving up the producer's end. Every reader still
/// takes what was handed over before, and is told of the end after that.
pub(crate) fn close(bus: Bus<Vec<u8>>) {
}

/// Leaves the channel by giving up a reader's end. The producer no longer
/// waits for this reader.
pub(crate) fn leave(reader: BusReader<Vec<u8>>) {
}

} // verus!
