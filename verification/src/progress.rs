use vstd::prelude::*;

verus! {

/// The bookkeeping of one running transfer: the declared total byte count
/// (0 when the response declared none), the reported progress position, and
/// the number of bytes actually written to the destination so far.
#[derive(Debug, Clone, Copy)]
pub struct TransferProgress {
    pub total: u64,
    pub position: u64,
    pub written: u64,
}

/// The progress position that belongs to `written` streamed bytes under a
/// declared total: clamped to the total when one is known, the raw byte
/// count otherwise.
pub open spec fn clamped_position(written: int, total: int) -> int {
    if total > 0 && written > total {
        total
    } else {
        written
    }
}

/// The sum of a sequence of chunk lengths.
pub open spec fn sum_of_chunks(lens: Seq<u64>) -> int
    decreases lens.len(),
{
    if lens.len() == 0 {
        0
    } else {
        sum_of_chunks(lens.drop_last()) + lens.last()
    }
}

impl TransferProgress {
    /// A progress record is well formed when its position is exactly the
    /// clamp of the bytes written, which also keeps it within a known total.
    pub open spec fn wf(self) -> bool {
        self.position == clamped_position(self.written as int, self.total as int)
    }

    /// The state after one chunk of `len` bytes has been appended.
    pub open spec fn after_chunk(self, len: u64) -> TransferProgress {
        TransferProgress {
            total: self.total,
            position: clamped_position(self.written + len, self.total as int) as u64,
            written: (self.written + len) as u64,
        }
    }

    /// The state after every chunk of `lens` has been appended in order.
    pub open spec fn after_chunks(self, lens: Seq<u64>) -> TransferProgress
        decreases lens.len(),
    {
        if lens.len() == 0 {
            self
        } else {
            self.after_chunks(lens.drop_last()).after_chunk(lens.last())
        }
    }

    /// Start tracking one transfer whose response declared `total` expected
    /// bytes, 0 standing for an unknown total.
    pub fn new(total: u64) -> (r: TransferProgress)
        ensures
            r == (TransferProgress { total, position: 0, written: 0 }),
            r.wf(),
    {
        TransferProgress { total, position: 0, written: 0 }
    }

    /// Record one received chunk: the byte count grows by the chunk length
    /// and the position follows it, clamped to a known total.
    pub fn apply_chunk(&mut self, len: u64)
        requires
            old(self).wf(),
            old(self).written + len <= u64::MAX,
        ensures
            *final(self) == old(self).after_chunk(len),
            final(self).wf(),
            final(self).total == old(self).total,
            final(self).written == old(self).written + len,
            final(self).position >= old(self).position,
            old(self).total > 0 ==> final(self).position <= old(self).total,
    {
        self.written = self.written + len;
        if self.total > 0 && self.written > self.total {
            self.position = self.total;
        } else {
            self.position = self.written;
        }
    }

    /// Whether the transfer has reached its declared total; with an unknown
    /// total there is no notion of completion short of stream exhaustion.
    pub fn reached_total(&self) -> (b: bool)
        ensures
            b == (self.total > 0 && self.position == self.total),
    {
        self.total > 0 && self.position == self.total
    }
}

/// Over any whole stream of chunks, the bytes written are exactly the sum of
/// the chunk lengths, the position never runs backwards, and it never passes
/// a known total.
pub proof fn lemma_stream_accounting(s: TransferProgress, lens: Seq<u64>)
    requires
        s.wf(),
        s.written + sum_of_chunks(lens) <= u64::MAX,
    ensures
        s.after_chunks(lens).wf(),
        s.after_chunks(lens).total == s.total,
        s.after_chunks(lens).written == s.written + sum_of_chunks(lens),
        s.after_chunks(lens).position >= s.position,
        s.total > 0 ==> s.after_chunks(lens).position <= s.total,
    decreases lens.len(),
{
    if lens.len() > 0 {
        lemma_chunk_sum_nonneg(lens.drop_last());
        lemma_stream_accounting(s, lens.drop_last());
    }
}

/// Chunk lengths are unsigned, so their sum is never negative.
proof fn lemma_chunk_sum_nonneg(lens: Seq<u64>)
    ensures
        sum_of_chunks(lens) >= 0,
    decreases lens.len(),
{
    if lens.len() > 0 {
        lemma_chunk_sum_nonneg(lens.drop_last());
    }
}

} // verus!
