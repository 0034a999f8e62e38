//! Verified core of `bd`, a bulk data duplicator: one pass over a source,
//! block by block, to every sink at once.
//!
//! A run has one reader task, which walks the source and hands each block to
//! a broadcast channel, and one writer task per sink, which takes the blocks
//! from its subscription and appends them to its destination. What is read
//! and written, and on which thread, is the caller's business. The library
//! holds everything that decides:
//!
//! - [`opts`]: the parameters of a run;
//! - [`block`]: how a source is cut into blocks, and that the blocks join to
//!   the source again;
//! - [`source`]: which read comes next in a walk over the source;
//! - [`reader`] and [`writer`]: the two kinds of task, as state machines,
//!   alone and with their end of the channel;
//! - [`channel`]: the channel itself, which is `bus::Bus`, behind contracts;
//! - [`coordinator`] and [`outcome`]: the wiring before a run, and the one
//!   outcome after it;
//! - [`sink`] and [`engine`]: sinks in memory, and a whole run on them, with
//!   what every run guarantees.

pub mod block;
pub mod channel;
pub mod coordinator;
pub mod engine;
pub mod opts;
pub mod outcome;
pub mod reader;
pub mod sink;
pub mod source;
pub mod writer;
