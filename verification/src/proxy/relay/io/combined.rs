//! Joining the two halves of a stream.

use vstd::prelude::*;

verus! {

/// Combines separate read and write halves into a single bidirectional stream.
///
/// Reading touches the reader alone and writing the writer alone, without buffering.
pub struct CombinedStream<R, W> {
    pub reader: R,
    pub writer: W,
}

impl<R, W> CombinedStream<R, W> {
    /// Joins a reader and a writer.
    pub fn new(reader: R, writer: W) -> (res: Self)
        ensures
            res.reader == reader,
            res.writer == writer,
    {
        CombinedStream { reader, writer }
    }
}

} // verus!
