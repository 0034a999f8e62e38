//! What a run can end in: the kinds of failure, and how the results of the
//! tasks fold into one outcome.

use vstd::prelude::*;

verus! {

/// Why a copy failed.
#[derive(Clone, Copy, Debug, PartialEq, Eq, Structural)]
pub enum CopyError {
    /// The source could not be opened or read.
    SourceRead,
    /// The destination with this index could not be created.
    SinkOpen { sink: usize },
    /// Writing to the destination with this index, or finalizing it, failed.
    SinkWrite { sink: usize },
    /// The destination with this index took fewer bytes than it was handed.
    ShortWrite { sink: usize },
}

/// How the reader task ended.
#[derive(Clone, Copy, Debug)]
pub struct ReaderReport {
    /// Bytes read from the source.
    pub bytes_read: usize,
    /// Blocks handed on.
    pub blocks: usize,
    /// Whether reading failed.
    pub result: Result<(), CopyError>,
}

/// How a run ended.
#[derive(Clone, Copy, Debug, PartialEq, Eq, Structural)]
pub struct Outcome {
    /// Bytes read from the source, also where the run failed.
    pub bytes_read: usize,
    /// Blocks handed to the sinks.
    pub blocks: usize,
    /// The number of sinks.
    pub sinks: usize,
    /// The failure that the run reports, if any.
    pub error: Option<CopyError>,
}

/// `results[i]` is a failure and no result before it is one.
pub open spec fn first_failure_at(results: Seq<Result<(), CopyError>>, i: int) -> bool {
    &&& 0 <= i < results.len()
    &&& results[i] is Err
    &&& forall|j: int| 0 <= j < i ==> (#[trigger] results[j]) is Ok
}

/// `error` is what a run reports whose reader ended in `reader` and whose
/// writers ended in `writers`: the reader's failure before any other, else the
/// failure of the first writer that has one, else none.
pub open spec fn reports(
    reader: Result<(), CopyError>,
    writers: Seq<Result<(), CopyError>>,
    error: Option<CopyError>,
) -> bool {
    match reader {
        Err(e) => error == Some(e),
        Ok(_) => match error {
            Some(e) => exists|i: int| first_failure_at(writers, i) && writers[i] == Err::<(), CopyError>(e),
            None => forall|i: int| 0 <= i < writers.len() ==> (#[trigger] writers[i]) is Ok,
        },
    }
}

impl Outcome {
    /// Whether the run ended without a failure.
    pub fn is_ok(&self) -> (ok: bool)
        ensures
            ok == (self.error is None),
    {
        self.error.is_none()
    }
}

} // verus!
