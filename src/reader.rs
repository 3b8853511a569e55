use vstd::prelude::*;

use crate::buffer::{
    after_append, after_appends, after_finish, filled, lemma_appends_store_chunks_in_order, read_bytes, read_count, read_status,
    ReadStatus, StreamBuffer,
};

verus! {

/// Where a seek moves the cursor to.
#[derive(Clone, Copy, Debug, PartialEq, Eq, Structural)]
pub enum SeekTarget {
    /// This many bytes from the start of the stream.
    Start(u64),
    /// This many bytes from the cursor.
    Current(i64),
    /// This many bytes from the end of the bytes stored so far.
    End(i64),
}

/// Why a seek was refused.
#[derive(Clone, Copy, Debug, PartialEq, Eq, Structural)]
pub enum SeekError {
    /// The target lies before the start of the stream, or beyond the
    /// largest offset a cursor can hold.
    OutOfBounds,
}

/// The offset that `target` names, for a cursor at `position` over `len`
/// stored bytes; it may lie before the start or beyond what is stored.
pub open spec fn seek_offset(position: int, len: int, target: SeekTarget) -> int {
    match target {
        SeekTarget::Start(n) => n as int,
        SeekTarget::Current(d) => position + d,
        SeekTarget::End(d) => len + d,
    }
}

/// Whether a cursor can stand at `offset`.
pub open spec fn valid_offset(offset: int) -> bool {
    0 <= offset <= u64::MAX
}

/// The bytes that reads with room for `rooms[0]`, `rooms[1]`, ... bytes
/// return one after the other, from a cursor at `position` over `data`.
pub open spec fn sequential_output(data: Seq<u8>, position: int, rooms: Seq<nat>) -> Seq<u8>
    decreases rooms.len(),
{
    if rooms.len() == 0 {
        Seq::empty()
    } else {
        let got = read_bytes(data, position, rooms[0] as int);
        got + sequential_output(data, position + got.len(), rooms.drop_first())
    }
}

/// Sum of the room that a series of reads offered.
pub open spec fn total_room(rooms: Seq<nat>) -> nat
    decreases rooms.len(),
{
    if rooms.len() == 0 {
        0
    } else {
        rooms[0] + total_room(rooms.drop_first())
    }
}

/// A pull-based, seekable reader over a `StreamBuffer`, with a cursor of
/// its own. The buffer is handed to each call, so that the caller can hold
/// it under a lock only for the length of the call.
pub struct StreamingReader {
    position: u64,
}

impl View for StreamingReader {
    type V = u64;

    closed spec fn view(&self) -> u64 {
        self.position
    }
}

impl StreamingReader {
    /// A reader at the start of the stream.
    pub fn new() -> (r: StreamingReader)
        ensures
            r@ == 0,
    {
        StreamingReader { position: 0 }
    }

    /// The cursor: the offset of the next byte to read.
    pub fn position(&self) -> (r: u64)
        ensures
            r == self@,
    {
        self.position
    }

    /// Fills the front of `dest` from the cursor on and advances the cursor
    /// by the number of bytes copied. Reports the end of the stream only when
    /// the buffer is finished and nothing is left at the cursor; where bytes
    /// are missing and more may come, asks the caller to wait and try again.
    pub fn read(&mut self, buffer: &StreamBuffer, dest: &mut [u8]) -> (r: ReadStatus)
        ensures
            r == read_status(buffer@.0, buffer@.1, old(self)@ as int, old(dest)@.len() as int),
            final(dest)@ == filled(
                old(dest)@,
                read_bytes(buffer@.0, old(self)@ as int, old(dest)@.len() as int),
            ),
            final(self)@ == old(self)@ + read_count(
                buffer@.0,
                old(self)@ as int,
                old(dest)@.len() as int,
            ),
    {
        let r = buffer.read_at(self.position, dest);
        match r {
            ReadStatus::Bytes(n) => {
                self.position = self.position + n as u64;
            },
            _ => {},
        }
        r
    }

    /// Moves the cursor to `target`. A target past the bytes stored so far is
    /// accepted: the next read waits there for bytes. Fails, leaving the
    /// cursor where it was, when the target is before the start of the
    /// stream or beyond the largest offset a cursor holds.
    pub fn seek(&mut self, buffer: &StreamBuffer, target: SeekTarget) -> (r: Result<u64, SeekError>)
        ensures
            valid_offset(seek_offset(old(self)@ as int, buffer@.0.len() as int, target)) ==> (
            r == Ok::<u64, SeekError>(
                seek_offset(old(self)@ as int, buffer@.0.len() as int, target) as u64,
            ) && final(self)@ == seek_offset(old(self)@ as int, buffer@.0.len() as int, target)),
            !valid_offset(seek_offset(old(self)@ as int, buffer@.0.len() as int, target)) ==> (r
                == Err::<u64, SeekError>(SeekError::OutOfBounds) && final(self)@ == old(self)@),
    {
        let offset: i128 = match target {
            SeekTarget::Start(n) => n as i128,
            SeekTarget::Current(d) => self.position as i128 + d as i128,
            SeekTarget::End(d) => buffer.length() as i128 + d as i128,
        };
        if offset < 0 || offset > u64::MAX as i128 {
            Err(SeekError::OutOfBounds)
        } else {
            self.position = offset as u64;
            Ok(self.position)
        }
    }

    /// The reader can always be repositioned.
    pub fn is_seekable(&self) -> (r: bool)
        ensures
            r,
    {
        true
    }

    /// Length of the stream as known now: the bytes stored so far, which may
    /// still grow.
    pub fn byte_len(&self, buffer: &StreamBuffer) -> (r: u64)
        ensures
            r == buffer@.0.len(),
    {
        buffer.length() as u64
    }
}

/// Reads one after the other from a cursor at `position` return the stored
/// bytes from there on in order, without a gap or a repeat: as many as the
/// reads had room for, or all that are stored.
pub proof fn lemma_sequential_reads_are_contiguous(data: Seq<u8>, position: int, rooms: Seq<nat>)
    requires
        0 <= position <= data.len(),
    ensures
        sequential_output(data, position, rooms) == data.subrange(
            position,
            position + read_count(data, position, total_room(rooms) as int),
        ),
    decreases rooms.len(),
{
    if rooms.len() == 0 {
        assert(data.subrange(position, position) =~= Seq::<u8>::empty());
    } else {
        let got = read_bytes(data, position, rooms[0] as int);
        let next = position + got.len();
        lemma_sequential_reads_are_contiguous(data, next, rooms.drop_first());
        let rest = sequential_output(data, next, rooms.drop_first());
        let end = position + read_count(data, position, total_room(rooms) as int);
        assert(got + rest =~= data.subrange(position, end));
    }
}

/// Sequential reads from the start of a buffer that received `chunks` one
/// after the other, with room enough in all for every byte, return exactly
/// the chunks joined in the order they were appended, with no gap or repeat.
pub proof fn lemma_sequential_reads_yield_appended_chunks(
    done: bool,
    chunks: Seq<Seq<u8>>,
    rooms: Seq<nat>,
)
    requires
        total_room(rooms) >= chunks.flatten().len(),
    ensures
        sequential_output(after_appends((Seq::empty(), done), chunks).0, 0, rooms)
            == chunks.flatten(),
{
    lemma_appends_store_chunks_in_order(done, chunks);
    let data = chunks.flatten();
    lemma_sequential_reads_are_contiguous(data, 0, rooms);
    assert(data.subrange(0, data.len() as int) =~= data);
}

/// A read at the end of the stored bytes never ends the stream before the
/// producer finished, not even before the first byte: it asks to wait. Once
/// bytes are appended, the same read returns some of them; once the producer
/// finished with none left, it ends the stream.
pub proof fn lemma_no_premature_end(data: Seq<u8>, chunk: Seq<u8>, room: nat)
    ensures
        read_status(Seq::empty(), false, 0, room as int) == ReadStatus::NotYet,
        read_status(data, false, data.len() as int, room as int) == ReadStatus::NotYet,
        room > 0 && chunk.len() > 0 ==> read_count(
            after_append((data, false), chunk).0,
            data.len() as int,
            room as int,
        ) > 0,
        read_status(after_finish((data, false)).0, true, data.len() as int, room as int)
            == ReadStatus::EndOfStream,
{
}

} // verus!
