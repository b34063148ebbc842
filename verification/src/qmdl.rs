//! The capture log: framed diagnostic messages, one after the other, with
//! no header, footer or index. A reader may be told how much of a log is
//! known to be written, and then reads no further, so that it can read a
//! log that is still being written.

use crate::hdlc::{decode, decode_stream, results_view, FramingError};
use vstd::prelude::*;

verus! {

/// How much of a log of `len` bytes a reader reads: all of it, or the size
/// it was told if that is less.
pub open spec fn readable_len(len: nat, known_size: Option<usize>) -> nat {
    match known_size {
        Some(size) => if size < len {
            size as nat
        } else {
            len
        },
        None => len,
    }
}

/// What a reader gives for a log: the results of the part it reads.
pub open spec fn log_results(log: Seq<u8>, known_size: Option<usize>) -> Seq<
    Result<Seq<u8>, FramingError>,
> {
    decode(log.take(readable_len(log.len(), known_size) as int))
}

/// Reads a log, up to `known_size` if it is given: one result for each frame
/// in the part that is read, and one error if that part ends inside a frame.
pub fn read_log(log: &[u8], known_size: Option<usize>) -> (results: Vec<
    Result<Vec<u8>, FramingError>,
>)
    ensures
        results_view(results@) == log_results(log@, known_size),
{
    let end: usize = match known_size {
        Some(size) => if size < log.len() {
            size
        } else {
            log.len()
        },
        None => log.len(),
    };
    assert(log@.subrange(0, end as int) == log@.take(end as int));
    decode_stream(vstd::slice::slice_subrange(log, 0, end))
}

/// A reader that was told a size is blind to what lies behind it: two logs
/// that agree up to that size give the same results.
pub proof fn lemma_reader_stops_at_known_size(first: Seq<u8>, second: Seq<u8>, known_size: usize)
    requires
        known_size <= first.len(),
        known_size <= second.len(),
        first.take(known_size as int) == second.take(known_size as int),
    ensures
        log_results(first, Some(known_size)) == log_results(second, Some(known_size)),
{
}

} // verus!
