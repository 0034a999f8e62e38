//! A sink held in memory.

use vstd::prelude::*;

verus! {

/// What a sink is to the contracts: the bytes it holds, how many it can
/// hold, and whether it has been finalized since the last write.
#[verifier::ext_equal]
pub struct SinkState {
    pub data: Seq<u8>,
    pub limit: nat,
    pub synced: bool,
}

impl SinkState {
    /// The number of bytes that the sink can still take.
    pub open spec fn room(self) -> nat {
        if self.limit >= self.data.len() {
            (self.limit - self.data.len()) as nat
        } else {
            0
        }
    }

    /// The sink has no room for all of `bytes`.
    pub open spec fn overflows(self, bytes: Seq<u8>) -> bool {
        bytes.len() > self.room()
    }

    /// The number of bytes of `bytes` that the sink has room for.
    pub open spec fn takes(self, bytes: Seq<u8>) -> nat {
        if self.overflows(bytes) {
            self.room()
        } else {
            bytes.len()
        }
    }

    /// The sink after one write of `block`: what fits is appended, and a
    /// block that does not fit is cut short at the limit.
    pub open spec fn written(self, block: Seq<u8>) -> SinkState {
        SinkState {
            data: self.data + block.take(self.takes(block) as int),
            limit: self.limit,
            synced: false,
        }
    }

    /// The sink after it was finalized.
    pub open spec fn finalized(self) -> SinkState {
        SinkState { data: self.data, limit: self.limit, synced: true }
    }

    /// The sink after `bytes` were sent its way, block by block, and the end
    /// of the stream after them: it holds as much of `bytes` as it has room
    /// for, behind what it held, and it is finalized if it took them all.
    pub open spec fn after_stream(self, bytes: Seq<u8>) -> SinkState {
        SinkState {
            data: self.data + bytes.take(self.takes(bytes) as int),
            limit: self.limit,
            synced: !self.overflows(bytes),
        }
    }
}

/// A destination in memory: the bytes written so far, and the most that it
/// can hold. A write that does not fit is cut short at the limit, as on a
/// device that is full.
#[derive(Debug)]
pub struct MemorySink {
    /// The bytes written so far.
    pub data: Vec<u8>,
    /// The number of bytes that the sink can hold.
    pub limit: usize,
    /// Whether the sink has been finalized since the last write.
    pub synced: bool,
}

impl View for MemorySink {
    type V = SinkState;

    open spec fn view(&self) -> SinkState {
        SinkState { data: self.data@, limit: self.limit as nat, synced: self.synced }
    }
}

impl MemorySink {
    /// An empty sink that takes whatever memory holds.
    pub fn new() -> (sink: MemorySink)
        ensures
            sink@ == (SinkState { data: Seq::empty(), limit: usize::MAX as nat, synced: false }),
    {
        MemorySink { data: Vec::new(), limit: usize::MAX, synced: false }
    }

    /// An empty sink that holds `limit` bytes and no more.
    pub fn with_limit(limit: usize) -> (sink: MemorySink)
        ensures
            sink@ == (SinkState { data: Seq::empty(), limit: limit as nat, synced: false }),
    {
        MemorySink { data: Vec::new(), limit, synced: false }
    }

    /// Appends as much of `block` as there is room for, and says how many
    /// bytes that was.
    pub fn write(&mut self, block: &Vec<u8>) -> (accepted: usize)
        ensures
            accepted == old(self)@.takes(block@),
            final(self)@ == old(self)@.written(block@),
    {
        let held: usize = self.data.len();
        let room: usize = if self.limit >= held { self.limit - held } else { 0 };
        let n: usize = if block.len() <= room { block.len() } else { room };
        let mut i: usize = 0;
        while i < n
            invariant
                n <= block@.len(),
                i <= n,
                held + n <= usize::MAX,
                self.data@ == old(self).data@ + block@.take(i as int),
                self.limit == old(self).limit,
            decreases n - i,
        {
            self.data.push(block[i]);
            i += 1;
            assert(self.data@ =~= old(self).data@ + block@.take(i as int));
        }
        self.synced = false;
        assert(self@ =~= old(self)@.written(block@));
        n
    }

    /// Finalizes the sink. In memory this cannot fail.
    pub fn sync(&mut self) -> (ok: bool)
        ensures
            ok,
            final(self)@ == old(self)@.finalized(),
    {
        self.synced = true;
        true
    }
}

} // verus!
