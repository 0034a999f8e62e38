//! Run parameters.

use crate::channel::depth_fits;
use crate::channel::usable_depth;
use std::path::PathBuf;
use vstd::prelude::*;

verus! {

/// `std::path::PathBuf`, declared so that it can stand in a field. Nothing is
/// claimed of it: the library carries paths and never looks inside one.
#[verifier::external_type_specification]
#[verifier::external_body]
pub struct ExPathBuf(PathBuf);

/// Bytes per block when none is asked for.
pub const DEFAULT_BLOCK_SIZE: usize = 64000;

/// Blocks a subscription may hold when no depth is asked for.
pub const DEFAULT_BLOCK_BUFFER: usize = 20;

/// How the source is walked.
#[derive(Clone, Copy, Debug, PartialEq, Eq, Structural)]
pub enum SourceMode {
    /// No length is known: the whole input is taken in one greedy read and
    /// travels as a single block.
    Stream,
    /// Exactly this many reads of one block each, however much the source
    /// still holds afterwards.
    Counted(usize),
    /// Block after block until the source's length is reached.
    ToEnd,
}

/// What a run is asked to do.
#[derive(Debug)]
pub struct Opts {
    /// Where to read from. `None` stands for standard input.
    pub input: Option<PathBuf>,
    /// Where to write to. `None` stands for standard output.
    pub output: Option<Vec<PathBuf>>,
    /// Bytes per block.
    pub block_size: usize,
    /// Blocks a subscription may hold before the producer waits.
    pub block_buffer: usize,
    /// Number of blocks to read, if the run is to stop early.
    pub block_count: Option<usize>,
}

impl Default for Opts {
    fn default() -> (opts: Self)
        ensures
            opts.input is None,
            opts.output is None,
            opts.block_size == DEFAULT_BLOCK_SIZE,
            opts.block_buffer == DEFAULT_BLOCK_BUFFER,
            opts.block_count is None,
            opts.valid(),
    {
        Opts {
            input: None,
            output: None,
            block_size: DEFAULT_BLOCK_SIZE,
            block_buffer: DEFAULT_BLOCK_BUFFER,
            block_count: None,
        }
    }
}

impl Opts {
    /// Blocks have a size, and the depth is one that a channel can be made
    /// with.
    pub open spec fn valid(&self) -> bool {
        &&& self.block_size > 0
        &&& depth_fits(self.block_buffer)
    }

    /// No destination is listed, so the run writes to standard output.
    pub open spec fn falls_back(&self) -> bool {
        match self.output {
            Some(paths) => paths@.len() == 0,
            None => true,
        }
    }

    /// The number of writer tasks: one per listed destination, and exactly
    /// one, for standard output, when the list is absent or empty.
    pub open spec fn sinks(&self) -> nat {
        match self.output {
            Some(paths) => if paths@.len() == 0 { 1 } else { paths@.len() },
            None => 1,
        }
    }

    /// The way the source is walked: a stream when no input is named (a
    /// count does not apply to it), else counted when a count is given, else
    /// to the end.
    pub open spec fn mode(&self) -> SourceMode {
        if self.input is None {
            SourceMode::Stream
        } else {
            match self.block_count {
                Some(count) => SourceMode::Counted(count),
                None => SourceMode::ToEnd,
            }
        }
    }

    /// Whether a run can be made with these parameters.
    pub fn is_valid(&self) -> (ok: bool)
        ensures
            ok == self.valid(),
    {
        self.block_size > 0 && usable_depth(self.block_buffer)
    }

    /// Whether the run writes to standard output.
    pub fn writes_to_stdout(&self) -> (yes: bool)
        ensures
            yes == self.falls_back(),
            yes ==> self.sinks() == 1,
    {
        match &self.output {
            Some(paths) => paths.len() == 0,
            None => true,
        }
    }

    /// The number of writer tasks.
    pub fn sink_count(&self) -> (count: usize)
        ensures
            count == self.sinks(),
            count >= 1,
    {
        match &self.output {
            Some(paths) => if paths.len() == 0 { 1 } else { paths.len() },
            None => 1,
        }
    }

    /// The way the source is walked.
    pub fn source_mode(&self) -> (mode: SourceMode)
        ensures
            mode == self.mode(),
    {
        if self.input.is_none() {
            SourceMode::Stream
        } else {
            match self.block_count {
                Some(count) => SourceMode::Counted(count),
                None => SourceMode::ToEnd,
            }
        }
    }
}

} // verus!
