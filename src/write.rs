use vstd::prelude::*;

use crate::stream::{IoFailure, WriteOutcome};

verus! {

/// How many bytes of a buffer of `len` bytes a write with outcome `o` handed
/// to the pipe.
pub open spec fn accepted(len: nat, o: WriteOutcome) -> nat {
    match o {
        WriteOutcome::Written => len,
        WriteOutcome::Partial(n) => n as nat,
        _ => 0,
    }
}

/// Classifies the OS answer to one write of a buffer of `len` bytes.
pub fn write_outcome(len: usize, result: Result<usize, IoFailure>) -> (r: WriteOutcome)
    requires
        result matches Ok(n) ==> n <= len,
    ensures
        result matches Ok(n) ==> if n == len {
            r is Written
        } else if n == 0 {
            r is WouldBlock
        } else {
            r matches WriteOutcome::Partial(m) && m == n
        },
        r matches WriteOutcome::Partial(n) ==> 0 < n < len,
        result matches Err(IoFailure::WouldBlock) ==> r is WouldBlock,
        result matches Err(IoFailure::BrokenPipe(_)) ==> r is BrokenPipe,
        result matches Err(IoFailure::Os(e)) ==> (r matches WriteOutcome::Os(m) && m@ == e@),
        result is Ok ==> accepted(len as nat, r) == result->Ok_0,
{
    match result {
        Ok(n) => if n == len {
            WriteOutcome::Written
        } else if n == 0 {
            WriteOutcome::WouldBlock
        } else {
            WriteOutcome::Partial(n)
        },
        Err(IoFailure::WouldBlock) => WriteOutcome::WouldBlock,
        Err(IoFailure::BrokenPipe(_)) => WriteOutcome::BrokenPipe,
        Err(IoFailure::Os(e)) => WriteOutcome::Os(e),
    }
}

/// The bytes of `data` that still have to be written after a write of all of
/// `data` ended with `outcome`.
pub fn pending_after(data: &[u8], outcome: &WriteOutcome) -> (r: Vec<u8>)
    requires
        outcome matches WriteOutcome::Partial(n) ==> n <= data@.len(),
    ensures
        r@ == data@.skip(accepted(data@.len(), *outcome) as int),
{
    let start: usize = match outcome {
        WriteOutcome::Written => data.len(),
        WriteOutcome::Partial(n) => *n,
        _ => 0,
    };
    let mut r: Vec<u8> = Vec::new();
    let mut i: usize = start;
    while i < data.len()
        invariant
            start <= i <= data@.len(),
            r@ == data@.subrange(start as int, i as int),
        decreases data@.len() - i,
    {
        r.push(data[i]);
        i = i + 1;
        assert(r@ =~= data@.subrange(start as int, i as int));
    }
    assert(r@ =~= data@.skip(start as int));
    r
}

/// Whether `outs` can be the outcomes of writing `data`, then each time what
/// was still pending: a partial write accepts no more than was submitted.
pub open spec fn valid_writes(data: Seq<u8>, outs: Seq<WriteOutcome>) -> bool
    decreases outs.len(),
{
    outs.len() == 0 || ((outs[0] matches WriteOutcome::Partial(n) ==> n <= data.len())
        && valid_writes(data.skip(accepted(data.len(), outs[0]) as int), outs.skip(1)))
}

/// The bytes that reach the reader over the writes with outcomes `outs`.
pub open spec fn delivered(data: Seq<u8>, outs: Seq<WriteOutcome>) -> Seq<u8>
    decreases outs.len(),
{
    if outs.len() == 0 {
        Seq::empty()
    } else {
        let n = accepted(data.len(), outs[0]) as int;
        data.take(n) + delivered(data.skip(n), outs.skip(1))
    }
}

/// The bytes still pending after the writes with outcomes `outs`.
pub open spec fn left_after(data: Seq<u8>, outs: Seq<WriteOutcome>) -> Seq<u8>
    decreases outs.len(),
{
    if outs.len() == 0 {
        data
    } else {
        left_after(data.skip(accepted(data.len(), outs[0]) as int), outs.skip(1))
    }
}

/// Resubmitting after partial writes loses and repeats nothing: what reached
/// the reader followed by what is pending is the data first submitted, and once a
/// write reports the whole buffer accepted the reader has all of it, byte for
/// byte.
pub proof fn lemma_partial_writes(data: Seq<u8>, outs: Seq<WriteOutcome>)
    requires
        valid_writes(data, outs),
    ensures
        delivered(data, outs) + left_after(data, outs) == data,
        outs.len() > 0 && outs.last() is Written ==> delivered(data, outs) == data,
    decreases outs.len(),
{
    if outs.len() > 0 {
        let n = accepted(data.len(), outs[0]) as int;
        let rest = outs.skip(1);
        lemma_partial_writes(data.skip(n), rest);
        assert(data.take(n) + (delivered(data.skip(n), rest) + left_after(data.skip(n), rest))
            =~= data);
        assert(delivered(data, outs) + left_after(data, outs) =~= data);
        if outs.last() is Written {
            if rest.len() == 0 {
                assert(left_after(data, outs) =~= Seq::<u8>::empty());
            } else {
                assert(rest.last() == outs.last());
            }
            assert(left_after(data, outs).len() == 0);
            assert(delivered(data, outs) =~= data);
        }
    }
}

} // verus!
