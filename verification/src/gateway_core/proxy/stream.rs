//! Streamed response bodies: the upstream body passes straight through, with
//! adjacent small chunks merged into one write.
//!
//! Chunks collect in a buffer until it holds at least [`BATCH_THRESHOLD`]
//! bytes, and then go out together. When the upstream stream fails or ends,
//! whatever is buffered goes out first. No byte is dropped, duplicated or
//! reordered.

use vstd::prelude::*;

verus! {

/// A batch goes out once it holds at least this many bytes.
pub const BATCH_THRESHOLD: usize = 1024;

/// One chunk's effect: the batch it completes, if any, and what stays buffered.
pub open spec fn batch_step(pending: Seq<u8>, chunk: Seq<u8>) -> (Option<Seq<u8>>, Seq<u8>) {
    let all = pending + chunk;
    if all.len() >= BATCH_THRESHOLD {
        (Some(all), Seq::empty())
    } else {
        (None, all)
    }
}

/// The batches that `chunks` complete, starting from `pending` buffered
/// bytes, and what stays buffered after the last chunk.
pub open spec fn batch_run(pending: Seq<u8>, chunks: Seq<Seq<u8>>) -> (Seq<Seq<u8>>, Seq<u8>)
    decreases chunks.len(),
{
    if chunks.len() == 0 {
        (Seq::empty(), pending)
    } else {
        let (out, rest) = batch_step(pending, chunks[0]);
        let (later, left) = batch_run(rest, chunks.drop_first());
        match out {
            Some(b) => (seq![b] + later, left),
            None => (later, left),
        }
    }
}

/// Merges adjacent small chunks of a body stream.
pub struct ChunkBatcher {
    buf: Vec<u8>,
}

impl View for ChunkBatcher {
    /// The bytes waiting to go out.
    type V = Seq<u8>;

    closed spec fn view(&self) -> Seq<u8> {
        self.buf@
    }
}

impl ChunkBatcher {
    /// A batcher with nothing buffered.
    pub fn new() -> (b: Self)
        ensures
            b@ == Seq::<u8>::empty(),
    {
        ChunkBatcher { buf: Vec::new() }
    }

    /// Takes one chunk from upstream; returns a batch to send once enough
    /// bytes have gathered.
    pub fn push(&mut self, chunk: &[u8]) -> (out: Option<Vec<u8>>)
        ensures
            (match out {
                Some(v) => Some(v@),
                None => None,
            }, final(self)@) == batch_step(old(self)@, chunk@),
    {
        let n = chunk.len();
        let ghost start = self.buf@;
        for i in 0..n
            invariant
                n == chunk@.len(),
                self.buf@ == start + chunk@.take(i as int),
        {
            self.buf.push(chunk[i]);
            assert(self.buf@ =~= start + chunk@.take(i + 1));
        }
        assert(chunk@.take(n as int) =~= chunk@);
        if self.buf.len() >= BATCH_THRESHOLD {
            let mut out: Vec<u8> = Vec::new();
            std::mem::swap(&mut out, &mut self.buf);
            Some(out)
        } else {
            None
        }
    }

    /// Sends on whatever is buffered: used when upstream fails or ends.
    /// Returns nothing when the buffer is empty.
    pub fn flush(&mut self) -> (out: Option<Vec<u8>>)
        ensures
            final(self)@ == Seq::<u8>::empty(),
            old(self)@.len() == 0 ==> out is None,
            old(self)@.len() > 0 ==> (out matches Some(v) && v@ == old(self)@),
    {
        if self.buf.len() == 0 {
            None
        } else {
            let mut out: Vec<u8> = Vec::new();
            std::mem::swap(&mut out, &mut self.buf);
            Some(out)
        }
    }
}

/// Passing chunks through the batcher keeps every byte in order: the batches
/// sent, followed by what stays buffered, are exactly the buffered bytes
/// followed by the chunks. Every batch sent while streaming holds at least
/// [`BATCH_THRESHOLD`] bytes, and less than that stays buffered.
pub proof fn lemma_batching_keeps_bytes(pending: Seq<u8>, chunks: Seq<Seq<u8>>)
    requires
        pending.len() < BATCH_THRESHOLD,
    ensures
        batch_run(pending, chunks).0.flatten() + batch_run(pending, chunks).1 == pending
            + chunks.flatten(),
        forall|i: int|
            0 <= i < batch_run(pending, chunks).0.len() ==> #[trigger] batch_run(
                pending,
                chunks,
            ).0[i].len() >= BATCH_THRESHOLD,
        batch_run(pending, chunks).1.len() < BATCH_THRESHOLD,
    decreases chunks.len(),
{
    if chunks.len() > 0 {
        let (out, rest) = batch_step(pending, chunks[0]);
        lemma_batching_keeps_bytes(rest, chunks.drop_first());
        let (later, left) = batch_run(rest, chunks.drop_first());
        assert(chunks.flatten() == chunks[0] + chunks.drop_first().flatten());
        match out {
            Some(b) => {
                let outs = seq![b] + later;
                assert(outs.drop_first() =~= later);
                assert(outs.flatten() == b + later.flatten());
                assert(outs.flatten() + left =~= pending + chunks.flatten());
                assert forall|i: int| 0 <= i < outs.len() implies #[trigger] outs[i].len()
                    >= BATCH_THRESHOLD by {
                    if i > 0 {
                        assert(outs[i] == later[i - 1]);
                    }
                }
            },
            None => {
                assert(later.flatten() + left =~= pending + chunks.flatten());
            },
        }
    }
}

} // verus!
