use vstd::prelude::*;

verus! {

/// What a read of the stream buffer found at the requested offset.
#[derive(Clone, Copy, Debug, PartialEq, Eq, Structural)]
pub enum ReadStatus {
    /// This many bytes were copied out; the count is zero only when the
    /// destination had no room.
    Bytes(usize),
    /// No bytes at the offset yet, and the producer may still append some:
    /// the caller should wait and try again. This is never an end of stream.
    NotYet,
    /// The producer has finished and nothing is left at the offset.
    EndOfStream,
}

/// Number of bytes that a read of `room` bytes at `offset` copies out of `data`.
pub open spec fn read_count(data: Seq<u8>, offset: int, room: int) -> int {
    if offset < data.len() {
        if data.len() - offset < room {
            data.len() - offset
        } else {
            room
        }
    } else {
        0
    }
}

/// The status that a read of `room` bytes at `offset` reports.
pub open spec fn read_status(data: Seq<u8>, done: bool, offset: int, room: int) -> ReadStatus {
    if offset < data.len() {
        ReadStatus::Bytes(read_count(data, offset, room) as usize)
    } else if done {
        ReadStatus::EndOfStream
    } else {
        ReadStatus::NotYet
    }
}

/// The bytes that a read of `room` bytes at `offset` copies out of `data`.
pub open spec fn read_bytes(data: Seq<u8>, offset: int, room: int) -> Seq<u8> {
    if offset < data.len() {
        data.subrange(offset, offset + read_count(data, offset, room))
    } else {
        Seq::empty()
    }
}

/// The destination of a read, after `bytes` were copied to its front.
pub open spec fn filled(dest: Seq<u8>, bytes: Seq<u8>) -> Seq<u8> {
    bytes + dest.skip(bytes.len() as int)
}

/// The state of a buffer after `chunk` was appended.
pub open spec fn after_append(v: (Seq<u8>, bool), chunk: Seq<u8>) -> (Seq<u8>, bool) {
    (v.0 + chunk, v.1)
}

/// The state of a buffer after each of `chunks` was appended, in order.
pub open spec fn after_appends(v: (Seq<u8>, bool), chunks: Seq<Seq<u8>>) -> (Seq<u8>, bool)
    decreases chunks.len(),
{
    if chunks.len() == 0 {
        v
    } else {
        after_append(after_appends(v, chunks.drop_last()), chunks.last())
    }
}

/// The state of a buffer after its producer declared it finished.
pub open spec fn after_finish(v: (Seq<u8>, bool)) -> (Seq<u8>, bool) {
    (v.0, true)
}

/// Append-only byte store shared by the network producer and the reader,
/// with a flag that the producer raises once no more bytes will come.
///
/// Its view is the pair of the bytes appended so far, in order, and the flag.
pub struct StreamBuffer {
    data: Vec<u8>,
    finished: bool,
}

impl View for StreamBuffer {
    type V = (Seq<u8>, bool);

    closed spec fn view(&self) -> (Seq<u8>, bool) {
        (self.data@, self.finished)
    }
}

impl StreamBuffer {
    /// An empty buffer whose producer has not finished.
    pub fn new() -> (r: StreamBuffer)
        ensures
            r@ == (Seq::<u8>::empty(), false),
    {
        StreamBuffer { data: Vec::new(), finished: false }
    }

    /// Adds `chunk` at the end of the stored bytes. Only an unfinished
    /// producer appends.
    pub fn append(&mut self, chunk: &[u8])
        requires
            !old(self)@.1,
        ensures
            final(self)@ == after_append(old(self)@, chunk@),
    {
        let ghost before = self.data@;
        self.data.extend_from_slice(chunk);
        proof {
            assert(self.data@ =~= before + chunk@);
        }
    }

    /// Declares that no more bytes will come. A second call changes nothing.
    pub fn mark_finished(&mut self)
        ensures
            final(self)@ == after_finish(old(self)@),
    {
        self.finished = true;
    }

    /// Whether the producer has declared the stream finished.
    pub fn is_finished(&self) -> (r: bool)
        ensures
            r == self@.1,
    {
        self.finished
    }

    /// Number of bytes appended so far.
    pub fn length(&self) -> (r: usize)
        ensures
            r == self@.0.len(),
    {
        self.data.len()
    }

    /// Copies the bytes stored from `offset` on into the front of `dest`, as
    /// many as are there and fit. Where none are stored at `offset`, reports
    /// the end of the stream only once the producer has finished, and asks
    /// the caller to wait otherwise; `dest` is then left as it was.
    pub fn read_at(&self, offset: u64, dest: &mut [u8]) -> (r: ReadStatus)
        ensures
            self@.0.len() <= usize::MAX,
            r == read_status(self@.0, self@.1, offset as int, old(dest)@.len() as int),
            final(dest)@ == filled(
                old(dest)@,
                read_bytes(self@.0, offset as int, old(dest)@.len() as int),
            ),
    {
        let len = self.data.len();
        if offset < len as u64 {
            let start = offset as usize;
            let n: usize = if len - start < dest.len() { len - start } else { dest.len() };
            let mut i: usize = 0;
            while i < n
                invariant
                    0 <= i <= n,
                    n <= dest@.len(),
                    start + n <= len,
                    len == self.data@.len(),
                    dest@.len() == old(dest)@.len(),
                    forall|j: int| 0 <= j < i ==> dest@[j] == self.data@[start + j],
                    forall|j: int| i <= j < dest@.len() ==> dest@[j] == old(dest)@[j],
                decreases n - i,
            {
                dest[i] = self.data[start + i];
                i = i + 1;
            }
            proof {
                assert(dest@ =~= filled(
                    old(dest)@,
                    read_bytes(self.data@, start as int, old(dest)@.len() as int),
                ));
            }
            ReadStatus::Bytes(n)
        } else if self.finished {
            proof {
                assert(dest@ =~= filled(old(dest)@, Seq::empty()));
            }
            ReadStatus::EndOfStream
        } else {
            proof {
                assert(dest@ =~= filled(old(dest)@, Seq::empty()));
            }
            ReadStatus::NotYet
        }
    }
}

/// Appending chunks one after the other to an empty buffer stores exactly
/// the chunks joined in order.
pub proof fn lemma_appends_store_chunks_in_order(done: bool, chunks: Seq<Seq<u8>>)
    ensures
        after_appends((Seq::empty(), done), chunks) == (chunks.flatten(), done),
    decreases chunks.len(),
{
    if chunks.len() > 0 {
        lemma_appends_store_chunks_in_order(done, chunks.drop_last());
        chunks.drop_last().lemma_flatten_push(chunks.last());
        assert(chunks.drop_last().push(chunks.last()) =~= chunks);
    } else {
        assert(chunks.flatten() =~= Seq::<u8>::empty());
    }
}

/// Declaring a buffer finished twice leaves it as declaring it once does.
pub proof fn lemma_mark_finished_idempotent(v: (Seq<u8>, bool))
    ensures
        after_finish(after_finish(v)) == after_finish(v),
{
}

} // verus!
