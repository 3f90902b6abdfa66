//! Cutting one batch's range response into per-entry payloads as the bytes
//! arrive: each entry's local header is checked and skipped, and exactly
//! its compressed bytes are handed on.

use crate::archive::{le32, local_fits, local_len, read_local_header, LOCAL_FILE_HEADER_SIGNATURE};
use crate::manifest::RemoteFileInfo;
use vstd::prelude::*;

verus! {

/// Why fetching or unpacking a batch failed.
#[derive(Clone, Copy, Debug, PartialEq, Eq, Structural)]
pub enum SyncError {
    /// The transport failed.
    Network,
    /// The server answered with this non-success status.
    InvalidStatus(u16),
    /// A file-system operation failed.
    FileError,
    EmptyDownload,
    InvalidLocalHeaderSignature,
    /// A local header does not fit in the entry's byte span.
    ParseError,
    InvalidHash,
    UnsupportedCompressionMethod,
    /// A background task could not be joined.
    JoinFailure,
    /// The response ended before every entry of the batch had arrived, or
    /// the batch is not in archive order.
    WrongDownloadRange,
    /// The compressed bytes do not fit in the entry's byte span, or their
    /// count differs from the entry's compressed size.
    WrongBytesLength,
    /// An entry's path would leave the installation root.
    UnsafePath,
}

/// Entries in archive order whose spans do not overlap.
pub open spec fn ordered_batch(b: Seq<RemoteFileInfo>) -> bool {
    &&& b.len() > 0
    &&& forall|i: int| 0 <= i < b.len() ==> #[trigger] b[i].start_offset <= b[i].end_offset
    &&& forall|i: int| 0 <= i && i + 1 < b.len() ==> #[trigger] b[i].end_offset <= b[i + 1].start_offset
}

proof fn lemma_starts_grow(b: Seq<RemoteFileInfo>, m: int)
    requires
        ordered_batch(b),
        0 <= m < b.len(),
    ensures
        b[0].start_offset <= b[m].start_offset,
    decreases m,
{
    if m > 0 {
        lemma_starts_grow(b, m - 1);
        assert(b[m - 1].start_offset <= b[m - 1].end_offset);
        assert(b[m - 1].end_offset <= b[m].start_offset);
    }
}

/// The handed-out items are entries `k0..` of the batch with their payloads.
#[verifier::opaque]
pub open spec fn payloads_match(
    b: Seq<RemoteFileInfo>,
    s: Seq<u8>,
    k0: int,
    out: Seq<(RemoteFileInfo, Vec<u8>)>,
) -> bool {
    forall|j: int|
        0 <= j < out.len() ==> {
            &&& (#[trigger] out[j]).0 == b[k0 + j]
            &&& payload_in(span_of(b, s, k0 + j), b[k0 + j].compressed_size) == Ok::<Seq<u8>, SyncError>(
                out[j].1@,
            )
        }
}

proof fn lemma_payloads_push(
    b: Seq<RemoteFileInfo>,
    s: Seq<u8>,
    k0: int,
    out: Seq<(RemoteFileInfo, Vec<u8>)>,
    item: (RemoteFileInfo, Vec<u8>),
)
    requires
        0 <= k0,
        k0 + out.len() < b.len(),
        payloads_match(b, s, k0, out),
        item.0 == b[k0 + out.len()],
        payload_in(span_of(b, s, k0 + out.len()), item.0.compressed_size) == Ok::<Seq<u8>, SyncError>(
            item.1@,
        ),
    ensures
        payloads_match(b, s, k0, out.push(item)),
{
    reveal(payloads_match);
    assert forall|j: int| 0 <= j < out.push(item).len() implies {
        &&& (#[trigger] out.push(item)[j]).0 == b[k0 + j]
        &&& payload_in(span_of(b, s, k0 + j), b[k0 + j].compressed_size) == Ok::<Seq<u8>, SyncError>(
            out.push(item)[j].1@,
        )
    } by {
        if j < out.len() {
            assert(out.push(item)[j] == out[j]);
        }
    }
}

proof fn lemma_handed_out_ok(
    b: Seq<RemoteFileInfo>,
    s: Seq<u8>,
    k0: int,
    n: int,
    out: Seq<(RemoteFileInfo, Vec<u8>)>,
)
    requires
        0 <= k0 <= n <= b.len(),
        out.len() == n - k0,
        payloads_match(b, s, k0, out),
    ensures
        forall|j: int|
            k0 <= j < n ==> (payload_in(#[trigger] span_of(b, s, j), b[j].compressed_size) is Ok),
{
    assert forall|j: int| k0 <= j < n implies (payload_in(
        #[trigger] span_of(b, s, j),
        b[j].compressed_size,
    ) is Ok) by {
        reveal(payloads_match);
        let x = out[j - k0];
        assert(k0 + (j - k0) == j);
    }
}

/// The byte range `(first, last)` requested for a batch.
pub fn batch_range(batch: &Vec<RemoteFileInfo>) -> (r: Result<(u64, u64), SyncError>)
    ensures
        batch@.len() == 0 ==> r == Err::<(u64, u64), SyncError>(SyncError::EmptyDownload),
        batch@.len() > 0 ==> r == Ok::<(u64, u64), SyncError>(
            (batch@[0].start_offset as u64, batch@.last().end_offset as u64),
        ),
{
    if batch.len() == 0 {
        return Err(SyncError::EmptyDownload);
    }
    Ok((batch[0].start_offset as u64, batch[batch.len() - 1].end_offset as u64))
}

/// What an entry's byte span yields: the `compressed_size` bytes after its
/// local header.
pub open spec fn payload_in(span: Seq<u8>, compressed_size: u32) -> Result<Seq<u8>, SyncError> {
    if !local_fits(span) {
        Err(SyncError::ParseError)
    } else if le32(span, 0) != LOCAL_FILE_HEADER_SIGNATURE {
        Err(SyncError::InvalidLocalHeaderSignature)
    } else if local_len(span) + compressed_size > span.len() {
        Err(SyncError::WrongBytesLength)
    } else {
        Ok(span.subrange(local_len(span), local_len(span) + compressed_size))
    }
}

pub open spec fn rel_start(b: Seq<RemoteFileInfo>, i: int) -> int {
    b[i].start_offset - b[0].start_offset
}

pub open spec fn rel_end(b: Seq<RemoteFileInfo>, i: int) -> int {
    b[i].end_offset - b[0].start_offset
}

/// The span of entry `i` in the bytes received from the batch's start.
pub open spec fn span_of(b: Seq<RemoteFileInfo>, stream: Seq<u8>, i: int) -> Seq<u8> {
    stream.subrange(rel_start(b, i), rel_end(b, i))
}

fn copy_range(src: &[u8], from: usize, to: usize) -> (r: Vec<u8>)
    requires
        from <= to <= src@.len(),
    ensures
        r@ == src@.subrange(from as int, to as int),
{
    let mut out: Vec<u8> = Vec::with_capacity(to - from);
    let mut i: usize = from;
    while i < to
        invariant
            from <= i <= to <= src@.len(),
            out@ == src@.subrange(from as int, i as int),
        decreases to - i,
    {
        out.push(src[i]);
        assert(src@.subrange(from as int, i + 1) =~= src@.subrange(from as int, i as int).push(src@[i as int]));
        i = i + 1;
    }
    out
}

/// Takes the compressed bytes out of one entry's span.
pub fn cut_payload(span: &[u8], compressed_size: u32) -> (r: Result<Vec<u8>, SyncError>)
    ensures
        match payload_in(span@, compressed_size) {
            Ok(p) => r matches Ok(v) && v@ == p,
            Err(e) => r == Err::<Vec<u8>, SyncError>(e),
        },
{
    match read_local_header(span) {
        None => Err(SyncError::ParseError),
        Some((sig, rest)) => {
            if sig != LOCAL_FILE_HEADER_SIGNATURE {
                return Err(SyncError::InvalidLocalHeaderSignature);
            }
            let header = span.len() - rest;
            if compressed_size as usize > rest {
                return Err(SyncError::WrongBytesLength);
            }
            Ok(copy_range(span, header, header + compressed_size as usize))
        },
    }
}

/// Follows one batch's response stream and hands out each entry's payload
/// as soon as the entry's whole span has arrived.
pub struct BatchSlicer {
    entries: Vec<RemoteFileInfo>,
    next: usize,
    consumed: usize,
    pending: Vec<u8>,
    received: Ghost<Seq<u8>>,
}

impl BatchSlicer {
    /// The batch being followed.
    pub closed spec fn batch(&self) -> Seq<RemoteFileInfo> {
        self.entries@
    }

    /// How many entries have been handed out.
    pub closed spec fn handed_out(&self) -> int {
        self.next as int
    }

    /// Every byte fed so far, from the batch's first offset on.
    pub closed spec fn received(&self) -> Seq<u8> {
        self.received@
    }

    pub closed spec fn wf(&self) -> bool {
        &&& ordered_batch(self.entries@)
        &&& self.next <= self.entries@.len()
        &&& self.consumed <= self.received@.len()
        &&& self.pending@ == self.received@.subrange(self.consumed as int, self.received@.len() as int)
        &&& self.next < self.entries@.len() ==> self.consumed <= rel_start(self.entries@, self.next as int)
        &&& self.next > 0 ==> self.consumed == rel_end(self.entries@, self.next - 1)
        &&& self.next == 0 ==> self.consumed == 0
        &&& forall|i: int| 0 <= i < self.next ==> rel_end(self.entries@, i) <= self.received@.len()
    }

    /// Starts following a batch; fails on an empty one, and on one whose
    /// entries are not in archive order.
    pub fn new(batch: Vec<RemoteFileInfo>) -> (r: Result<BatchSlicer, SyncError>)
        ensures
            batch@.len() == 0 ==> r == Err::<BatchSlicer, SyncError>(SyncError::EmptyDownload),
            batch@.len() > 0 && !ordered_batch(batch@) ==> r == Err::<BatchSlicer, SyncError>(
                SyncError::WrongDownloadRange,
            ),
            ordered_batch(batch@) ==> (r matches Ok(s) && s.wf() && s.batch() == batch@
                && s.handed_out() == 0 && s.received() == Seq::<u8>::empty()),
    {
        if batch.len() == 0 {
            return Err(SyncError::EmptyDownload);
        }
        let mut i: usize = 0;
        while i < batch.len()
            invariant
                0 < batch@.len(),
                i <= batch@.len(),
                forall|k: int| 0 <= k < i ==> #[trigger] batch@[k].start_offset <= batch@[k].end_offset,
                forall|k: int| 0 <= k && k + 1 < batch@.len() && k + 1 <= i ==> #[trigger] batch@[k].end_offset
                    <= batch@[k + 1].start_offset,
            decreases batch@.len() - i,
        {
            if batch[i].start_offset > batch[i].end_offset {
                return Err(SyncError::WrongDownloadRange);
            }
            if i + 1 < batch.len() && batch[i].end_offset > batch[i + 1].start_offset {
                return Err(SyncError::WrongDownloadRange);
            }
            i = i + 1;
        }
        assert(Seq::<u8>::empty().subrange(0, 0) =~= Seq::<u8>::empty());
        Ok(BatchSlicer {
            entries: batch,
            next: 0,
            consumed: 0,
            pending: Vec::new(),
            received: Ghost(Seq::empty()),
        })
    }

    /// Takes the next chunk of the response and hands out, in archive order,
    /// the payload of every entry whose span is now complete. An entry whose
    /// span does not yield a payload ends the batch with that entry's error.
    #[verifier::rlimit(40)]
    pub fn feed(&mut self, chunk: &[u8]) -> (r: Result<Vec<(RemoteFileInfo, Vec<u8>)>, SyncError>)
        requires
            old(self).wf(),
        ensures
            final(self).batch() == old(self).batch(),
            final(self).received() == old(self).received() + chunk@,
            r matches Ok(out) ==> {
                &&& final(self).wf()
                &&& old(self).handed_out() <= final(self).handed_out() <= old(self).batch().len()
                &&& (final(self).handed_out() == old(self).batch().len() || rel_end(
                    old(self).batch(),
                    final(self).handed_out(),
                ) > final(self).received().len())
                &&& out@.len() == final(self).handed_out() - old(self).handed_out()
                &&& payloads_match(old(self).batch(), final(self).received(), old(self).handed_out(), out@)
            },
            r matches Err(e) ==> exists|k: int|
                {
                    &&& old(self).handed_out() <= k < old(self).batch().len()
                    &&& rel_end(old(self).batch(), k) <= final(self).received().len()
                    &&& payload_in(
                        span_of(old(self).batch(), final(self).received(), k),
                        old(self).batch()[k].compressed_size,
                    ) == Err::<Seq<u8>, SyncError>(e)
                    &&& forall|j: int|
                        old(self).handed_out() <= j < k ==> (payload_in(
                            #[trigger] span_of(old(self).batch(), final(self).received(), j),
                            old(self).batch()[j].compressed_size,
                        ) is Ok)
                },
    {
        let ghost k0 = self.next as int;
        let ghost b = self.entries@;
        let mut i: usize = 0;
        while i < chunk.len()
            invariant
                i <= chunk@.len(),
                self.entries@ == b,
                self.next == k0,
                self.consumed <= old(self).received@.len(),
                self.consumed == old(self).consumed,
                self.received@ == old(self).received@ + chunk@.subrange(0, i as int),
                self.pending@ == self.received@.subrange(self.consumed as int, self.received@.len() as int),
            decreases chunk@.len() - i,
        {
            let byte = chunk[i];
            self.pending.push(byte);
            self.received = Ghost(self.received@.push(byte));
            assert(chunk@.subrange(0, i + 1) =~= chunk@.subrange(0, i as int).push(chunk@[i as int]));
            assert(self.pending@ =~= self.received@.subrange(self.consumed as int, self.received@.len() as int));
            i = i + 1;
        }
        assert(chunk@.subrange(0, chunk@.len() as int) =~= chunk@);
        assert(self.wf()) by {
            assert forall|j: int| 0 <= j < self.next implies rel_end(self.entries@, j)
                <= self.received@.len() by {
                assert(rel_end(old(self).entries@, j) <= old(self).received@.len());
            }
        }
        let ghost s = self.received@;
        let mut out: Vec<(RemoteFileInfo, Vec<u8>)> = Vec::new();
        proof {
            reveal(payloads_match);
        }
        loop
            invariant
                self.wf(),
                self.entries@ == b,
                self.received@ == s,
                b == old(self).entries@,
                s == old(self).received@ + chunk@,
                k0 == old(self).next,
                k0 <= self.next <= b.len(),
                out@.len() == self.next - k0,
                payloads_match(b, s, k0, out@),
            decreases b.len() - self.next,
        {
            let ghost n = self.next as int;
            proof {
                reveal(payloads_match);
            }
            match self.cut_next() {
                None => {
                    return Ok(out);
                },
                Some(Err(err)) => {
                    proof {
                        lemma_handed_out_ok(b, s, k0, n, out@);
                        assert({
                            &&& k0 <= n < b.len()
                            &&& rel_end(b, n) <= s.len()
                            &&& payload_in(span_of(b, s, n), b[n].compressed_size) == Err::<
                                Seq<u8>,
                                SyncError,
                            >(err)
                            &&& forall|j: int|
                                k0 <= j < n ==> (payload_in(
                                    #[trigger] span_of(b, s, j),
                                    b[j].compressed_size,
                                ) is Ok)
                        });
                        assert(self.received@ == s);
                        assert(self.received() == s);
                        assert(old(self).batch() == b);
                        assert(old(self).handed_out() == k0);
                    }
                    return Err(err);
                },
                Some(Ok(item)) => {
                    let ghost before = out@;
                    out.push(item);
                    proof {
                        lemma_payloads_push(b, s, k0, before, item);
                    }
                },
            }
        }
    }

    /// Hands out the next entry if its whole span has arrived.
    fn cut_next(&mut self) -> (r: Option<Result<(RemoteFileInfo, Vec<u8>), SyncError>>)
        requires
            old(self).wf(),
        ensures
            final(self).entries@ == old(self).entries@,
            final(self).received@ == old(self).received@,
            r is None ==> final(self).wf() && final(self).next == old(self).next && (old(self).next
                == old(self).entries@.len() || rel_end(old(self).entries@, old(self).next as int)
                > old(self).received@.len()),
            r is Some ==> old(self).next < old(self).entries@.len() && rel_end(
                old(self).entries@,
                old(self).next as int,
            ) <= old(self).received@.len(),
            r matches Some(Ok(item)) ==> {
                &&& final(self).wf()
                &&& final(self).next == old(self).next + 1
                &&& item.0 == old(self).entries@[old(self).next as int]
                &&& payload_in(
                    span_of(old(self).entries@, old(self).received@, old(self).next as int),
                    item.0.compressed_size,
                ) == Ok::<Seq<u8>, SyncError>(item.1@)
            },
            r matches Some(Err(err)) ==> payload_in(
                span_of(old(self).entries@, old(self).received@, old(self).next as int),
                old(self).entries@[old(self).next as int].compressed_size,
            ) == Err::<Seq<u8>, SyncError>(err),
    {
        if self.next >= self.entries.len() {
            return None;
        }
        let ghost b = self.entries@;
        let ghost s = self.received@;
        let ghost n = self.next as int;
        proof {
            lemma_starts_grow(b, n);
            assert(b[n].start_offset <= b[n].end_offset);
        }
        let first = self.entries[0].start_offset;
        let e = &self.entries[self.next];
        let rs = (e.start_offset - first) as usize;
        let re = (e.end_offset - first) as usize;
        if re - self.consumed > self.pending.len() {
            return None;
        }
        let span = vstd::slice::slice_subrange(self.pending.as_slice(), rs - self.consumed, re - self.consumed);
        assert(span@ =~= span_of(b, s, n));
        let item = match cut_payload(span, e.compressed_size) {
            Err(err) => {
                return Some(Err(err));
            },
            Ok(p) => (e.duplicate(), p),
        };
        let rest = copy_range(self.pending.as_slice(), re - self.consumed, self.pending.len());
        assert(rest@ =~= s.subrange(re as int, s.len() as int));
        self.pending = rest;
        self.consumed = re;
        self.next = self.next + 1;
        proof {
            if n + 1 < b.len() {
                assert(b[n].end_offset <= b[n + 1].start_offset);
            }
        }
        Some(Ok(item))
    }

    /// Whether every entry has been handed out.
    pub fn is_complete(&self) -> (r: bool)
        requires
            self.wf(),
        ensures
            r == (self.handed_out() == self.batch().len()),
    {
        self.next == self.entries.len()
    }

    /// Called when the response has ended: every entry must have arrived.
    pub fn finish(&self) -> (r: Result<(), SyncError>)
        requires
            self.wf(),
        ensures
            r is Ok <==> self.handed_out() == self.batch().len(),
            r is Err ==> r == Err::<(), SyncError>(SyncError::WrongDownloadRange),
    {
        if self.next == self.entries.len() {
            Ok(())
        } else {
            Err(SyncError::WrongDownloadRange)
        }
    }
}

} // verus!
