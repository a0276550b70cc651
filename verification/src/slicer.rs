//! Splitting a flat byte buffer into successive fixed-length fields.

use vstd::prelude::*;
use crate::error::Error;

verus! {

/// The first `n` bytes of `data`.
pub open spec fn head_of(n: nat, data: Seq<u8>) -> Seq<u8> {
    data.subrange(0, n as int)
}

/// What is left of `data` once its first `n` bytes are taken.
pub open spec fn tail_of(n: nat, data: Seq<u8>) -> Seq<u8> {
    data.subrange(n as int, data.len() as int)
}

/// Slices the first `n` bytes off `data`.
///
/// Succeeds exactly when `data` holds at least `n` bytes; the two parts then
/// join back into `data`. Shorter data is reported as truncated.
pub fn take_n(n: usize, data: &[u8]) -> (result: Result<(&[u8], &[u8]), Error>)
    ensures
        match result {
            Ok((head, tail)) => {
                &&& n <= data@.len()
                &&& head@ == head_of(n as nat, data@)
                &&& tail@ == tail_of(n as nat, data@)
                &&& head@.len() == n
                &&& tail@.len() == data@.len() - n
                &&& head@ + tail@ == data@
            },
            Err(e) => n > data@.len() && e == Error::TruncatedData,
        },
{
    if data.len() < n {
        return Err(Error::TruncatedData);
    }
    Ok(data.split_at(n))
}

} // verus!
