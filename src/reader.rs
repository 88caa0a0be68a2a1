//! Assembly of a byte range from bounded, possibly short backend reads.
//!
//! The backend offers no stream: a caller asks `next_request` for the next
//! bounded read, performs it, and hands the result back with
//! `accept_payload` (or `accept_chunk`), until no request is left; `finish`
//! then yields the bytes or the fault.
use vstd::prelude::*;
use crate::fault::ExportFault;
use crate::hex::{decode_hex_bytes, payload_bytes};

verus! {

/// Most bytes that one export request may serve (512 MiB).
pub const ZPL_DOWNLOAD_MAX_BYTES: u64 = 512 * 1024 * 1024;

/// Most bytes that one bounded backend read is asked for (1 MiB).
pub const OBJSET_DATA_MAX_LIMIT: u64 = 1024 * 1024;

/// The state of a chunked read: the range starts at `start` and holds `total`
/// bytes; `data` are the bytes gathered so far; `done` once the backend
/// signalled the end of its data.
pub ghost struct ReadModel {
    pub start: int,
    pub total: nat,
    pub data: Seq<u8>,
    pub done: bool,
}

/// The number of bytes in `start..=end`.
pub open spec fn span(start: u64, end: u64) -> nat {
    if end < start {
        0
    } else {
        (end - start + 1) as nat
    }
}

/// The state of a read of `start..=end` before any backend read.
pub open spec fn begin_model(start: u64, end: u64) -> ReadModel {
    ReadModel { start: start as int, total: span(start, end), data: Seq::empty(), done: false }
}

/// More bytes are wanted and the backend has not signalled the end.
pub open spec fn pending(m: ReadModel) -> bool {
    !m.done && m.data.len() < m.total
}

/// The offset of the next bounded read.
pub open spec fn request_offset(m: ReadModel) -> int {
    m.start + m.data.len()
}

/// The length of the next bounded read: what is missing, at most one chunk.
pub open spec fn request_len(m: ReadModel) -> nat {
    let room = (m.total - m.data.len()) as nat;
    if room < OBJSET_DATA_MAX_LIMIT {
        room
    } else {
        OBJSET_DATA_MAX_LIMIT as nat
    }
}

/// The state after the backend answered a pending read with `chunk`: an empty
/// chunk ends the read; a longer one than what is missing is cut to it.
pub open spec fn step(m: ReadModel, chunk: Seq<u8>) -> ReadModel {
    if !pending(m) {
        m
    } else if chunk.len() == 0 {
        ReadModel { done: true, ..m }
    } else {
        let room = (m.total - m.data.len()) as nat;
        let kept = if chunk.len() > room {
            chunk.take(room as int)
        } else {
            chunk
        };
        ReadModel { data: m.data + kept, ..m }
    }
}

/// What the read yields: all of its bytes, or a short read.
pub open spec fn outcome(m: ReadModel) -> Result<Seq<u8>, ExportFault> {
    if m.data.len() == m.total {
        Ok(m.data)
    } else {
        Err(ExportFault::ShortRead { expected: m.total as u64, got: m.data.len() as u64 })
    }
}

/// The range lies inside the addressable bytes, is at most the cap, and no more bytes were gathered than it holds.
pub open spec fn model_wf(m: ReadModel) -> bool {
    &&& 0 <= m.start
    &&& m.total <= ZPL_DOWNLOAD_MAX_BYTES
    &&& m.data.len() <= m.total
    &&& m.start + m.total <= u64::MAX + 1
}

/// The fault that refuses `start..=end` for its size.
pub open spec fn too_large(start: u64, end: u64) -> ExportFault {
    let requested = if span(start, end) > u64::MAX {
        u64::MAX
    } else {
        span(start, end) as u64
    };
    ExportFault::DownloadTooLarge { requested }
}

/// A chunked read of one byte range.
pub struct ChunkedRead {
    start: u64,
    total: u64,
    out: Vec<u8>,
    done: bool,
}

impl View for ChunkedRead {
    type V = ReadModel;

    closed spec fn view(&self) -> ReadModel {
        ReadModel {
            start: self.start as int,
            total: self.total as nat,
            data: self.out@,
            done: self.done,
        }
    }
}

impl ChunkedRead {
    /// The state of this read is well formed.
    pub open spec fn wf(&self) -> bool {
        model_wf(self@)
    }

    /// Starts the read of `start..=end` (nothing where `end < start`). A range
    /// of more than `ZPL_DOWNLOAD_MAX_BYTES` bytes is refused here, before any
    /// backend read is asked for.
    pub fn begin(start: u64, end: u64) -> (r: Result<ChunkedRead, ExportFault>)
        ensures
            r is Err <==> span(start, end) > ZPL_DOWNLOAD_MAX_BYTES,
            r matches Err(e) ==> e == too_large(start, end),
            r matches Ok(c) ==> c.wf() && c@ == begin_model(start, end),
    {
        if end < start {
            let c = ChunkedRead { start, total: 0, out: Vec::new(), done: false };
            assert(c.out@ =~= Seq::<u8>::empty());
            return Ok(c);
        }
        let diff = end - start;
        if diff >= ZPL_DOWNLOAD_MAX_BYTES {
            let requested = if diff == u64::MAX {
                diff
            } else {
                diff + 1
            };
            return Err(ExportFault::DownloadTooLarge { requested });
        }
        let c = ChunkedRead { start, total: diff + 1, out: Vec::new(), done: false };
        assert(c.out@ =~= Seq::<u8>::empty());
        Ok(c)
    }

    /// The next bounded read to perform, as `(offset, length)`; `None` once
    /// the range is complete or the backend signalled its end.
    pub fn next_request(&self) -> (r: Option<(u64, u64)>)
        requires
            self.wf(),
        ensures
            r is Some <==> pending(self@),
            r matches Some((o, n)) ==> o == request_offset(self@) && n == request_len(self@),
    {
        let got = self.out.len() as u64;
        if self.done || got >= self.total {
            return None;
        }
        let room = self.total - got;
        let len = if room < OBJSET_DATA_MAX_LIMIT {
            room
        } else {
            OBJSET_DATA_MAX_LIMIT
        };
        Some((self.start + got, len))
    }

    /// Takes the bytes that the backend returned for the pending read.
    pub fn accept_chunk(&mut self, chunk: Vec<u8>)
        requires
            old(self).wf(),
        ensures
            final(self).wf(),
            final(self)@ == step(old(self)@, chunk@),
    {
        let got = self.out.len() as u64;
        if self.done || got >= self.total {
            return;
        }
        if chunk.len() == 0 {
            self.done = true;
            return;
        }
        let room = self.total - got;
        let mut kept = chunk;
        if kept.len() as u64 > room {
            kept.truncate(room as usize);
        }
        let ghost before = self.out@;
        let ghost k = kept@;
        self.out.append(&mut kept);
        assert(self.out@ =~= before + k);
    }

    /// Takes the hex payload that the backend returned for the pending read.
    /// A malformed payload is a fault and leaves the read as it was.
    pub fn accept_payload(&mut self, data_hex: &str) -> (r: Result<(), ExportFault>)
        requires
            old(self).wf(),
        ensures
            final(self).wf(),
            match payload_bytes(data_hex@) {
                Ok(b) => r is Ok && final(self)@ == step(old(self)@, b),
                Err(e) => r == Err::<(), ExportFault>(e) && final(self)@ == old(self)@,
            },
    {
        match decode_hex_bytes(data_hex) {
            Ok(bytes) => {
                self.accept_chunk(bytes);
                Ok(())
            },
            Err(e) => Err(e),
        }
    }

    /// The bytes of the range, or `ShortRead` where fewer arrived than it holds.
    pub fn finish(self) -> (r: Result<Vec<u8>, ExportFault>)
        requires
            self.wf(),
        ensures
            match r {
                Ok(v) => outcome(self@) == Ok::<Seq<u8>, ExportFault>(v@),
                Err(e) => outcome(self@) == Err::<Seq<u8>, ExportFault>(e),
            },
    {
        let got = self.out.len() as u64;
        if got == self.total {
            Ok(self.out)
        } else {
            Err(ExportFault::ShortRead { expected: self.total, got })
        }
    }
}

/// `chunk` is what an intact backend answers to the pending read of `m` on an
/// object holding `content`: a nonempty run of the object's bytes from the
/// requested offset, no longer than requested.
pub open spec fn intact_chunk(content: Seq<u8>, m: ReadModel, chunk: Seq<u8>) -> bool {
    let o = request_offset(m);
    &&& 0 < chunk.len() <= request_len(m)
    &&& o + chunk.len() <= content.len()
    &&& chunk == content.subrange(o, o + chunk.len())
}

/// The state after the backend answered successive reads with `chunks`.
pub open spec fn feed(m: ReadModel, chunks: Seq<Seq<u8>>) -> ReadModel
    decreases chunks.len(),
{
    if chunks.len() == 0 {
        m
    } else {
        feed(step(m, chunks[0]), chunks.drop_first())
    }
}

/// Every chunk of `chunks` is what an intact backend answers at its turn.
pub open spec fn intact_run(content: Seq<u8>, m: ReadModel, chunks: Seq<Seq<u8>>) -> bool
    decreases chunks.len(),
{
    chunks.len() == 0 || (intact_chunk(content, m, chunks[0]) && intact_run(
        content,
        step(m, chunks[0]),
        chunks.drop_first(),
    ))
}

proof fn lemma_intact_feed(content: Seq<u8>, m: ReadModel, chunks: Seq<Seq<u8>>)
    requires
        model_wf(m),
        !m.done,
        m.start + m.data.len() <= content.len(),
        m.data == content.subrange(m.start, m.start + m.data.len()),
        intact_run(content, m, chunks),
    ensures
        model_wf(feed(m, chunks)),
        !feed(m, chunks).done,
        feed(m, chunks).start == m.start,
        feed(m, chunks).total == m.total,
        m.start + feed(m, chunks).data.len() <= content.len(),
        feed(m, chunks).data == content.subrange(m.start, m.start + feed(m, chunks).data.len()),
    decreases chunks.len(),
{
    if chunks.len() > 0 {
        let c = chunks[0];
        let n = step(m, c);
        if pending(m) {
            let o = request_offset(m);
            assert(n.data =~= content.subrange(m.start, o + c.len()));
        }
        lemma_intact_feed(content, n, chunks.drop_first());
    }
}

/// Reading a whole object in chunks gives the object: when an intact backend
/// answers every request of the chunked read of `0..=size-1` until none is
/// left, the read yields exactly the bytes of one full read.
pub proof fn lemma_chunked_read_round_trip(content: Seq<u8>, chunks: Seq<Seq<u8>>)
    requires
        0 < content.len() <= ZPL_DOWNLOAD_MAX_BYTES,
        intact_run(content, begin_model(0, (content.len() - 1) as u64), chunks),
        !pending(feed(begin_model(0, (content.len() - 1) as u64), chunks)),
    ensures
        outcome(feed(begin_model(0, (content.len() - 1) as u64), chunks)) == Ok::<
            Seq<u8>,
            ExportFault,
        >(content),
{
    let m = begin_model(0, (content.len() - 1) as u64);
    assert(m.data =~= content.subrange(0, 0));
    lemma_intact_feed(content, m, chunks);
    let f = feed(m, chunks);
    assert(f.data.len() == content.len());
    assert(f.data =~= content);
}

/// A backend that ends its data early makes the read fail: once an empty
/// chunk answers a pending read, no request is left and the read yields a
/// short read with the byte counts, never a truncated range.
pub proof fn lemma_early_end_is_short_read(m: ReadModel)
    requires
        model_wf(m),
        pending(m),
    ensures
        !pending(step(m, Seq::empty())),
        outcome(step(m, Seq::empty())) == Err::<Seq<u8>, ExportFault>(
            ExportFault::ShortRead { expected: m.total as u64, got: m.data.len() as u64 },
        ),
{
}

} // verus!
