//! Pipes between the parts of a pipeline, kept in memory.
//!
//! The bytes that were written and not yet read wait in one buffer. A pipe has
//! one or more writers and is closed when the last of them is gone.

use vstd::prelude::*;
use vstd::slice::*;
use vstd::string::*;

use crate::error::{IoError, IoErrorKind};
#[allow(unused_imports)]
use crate::wasm_vfs::filled;
use crate::wasm_vfs::{append_bytes, fill};

verus! {

/// The greatest size of the buffer: 64 mebibytes.
pub const MAX_PIPE_BUFFER_BYTES: usize = 67_108_864;

/// What a reader that can wait is told.
pub enum PollRead {
    /// These bytes come next.
    Data(Vec<u8>),
    /// There is nothing left and no writer any more.
    Eof,
    /// There is nothing yet; the reader will be woken.
    Pending,
}

/// The state that reader and writers of a pipe share.
pub struct SharedBuffer {
    pub data: Vec<u8>,
    pub read_pos: usize,
    pub writer_closed: bool,
    /// Whether a reader waits to be woken.
    pub reader_waiting: bool,
    /// How many writers there are.
    pub writers: usize,
}

/// The number of bytes that a read into `room` bytes takes.
pub open spec fn taken_len(unread: Seq<u8>, room: nat) -> nat {
    if room < unread.len() {
        room
    } else {
        unread.len()
    }
}

impl SharedBuffer {
    /// The bytes that were read and are still in the buffer are at most half
    /// of it, the buffer is within its limit, and the pipe is closed exactly
    /// when it has no writer.
    pub open spec fn wf(self) -> bool {
        &&& self.read_pos <= self.data@.len() / 2
        &&& self.data@.len() <= MAX_PIPE_BUFFER_BYTES
        &&& self.writer_closed <==> self.writers == 0
    }

    /// The bytes that were written and not yet read.
    pub open spec fn unread(self) -> Seq<u8> {
        self.data@.skip(self.read_pos as int)
    }

    /// Whether the two states differ at most in the buffer.
    pub open spec fn same_ends(self, other: SharedBuffer) -> bool {
        &&& self.writer_closed == other.writer_closed
        &&& self.reader_waiting == other.reader_waiting
        &&& self.writers == other.writers
    }

    /// Whether `after` is this buffer when `n` more bytes were read. Once the
    /// bytes that were read are more than half of the buffer they are forgotten;
    /// until then they stay in it and count for its size.
    pub open spec fn advanced(self, n: int, after: SharedBuffer) -> bool {
        let position = self.read_pos + n;
        if position > self.data@.len() / 2 {
            after.data@ == self.data@.skip(position) && after.read_pos == 0
        } else {
            after.data@ == self.data@ && after.read_pos == position
        }
    }

    /// A pipe with one writer and nothing in it.
    pub fn new() -> (r: SharedBuffer)
        ensures
            r.wf(),
            r.unread().len() == 0,
            r.data@.len() == 0,
            r.writers == 1,
            !r.writer_closed,
            !r.reader_waiting,
    {
        SharedBuffer {
            data: Vec::new(),
            read_pos: 0,
            writer_closed: false,
            reader_waiting: false,
            writers: 1,
        }
    }

    /// Moves the reading position on by `n` bytes, and forgets the bytes that
    /// were read once they are more than half of the buffer.
    fn advance(&mut self, n: usize)
        requires
            old(self).wf(),
            n <= old(self).unread().len(),
        ensures
            final(self).wf(),
            final(self).same_ends(*old(self)),
            old(self).advanced(n as int, *final(self)),
            final(self).unread() == old(self).unread().skip(n as int),
    {
        self.read_pos = self.read_pos + n;
        let half: usize = self.data.len() / 2;
        if self.read_pos > half {
            let rest = self.data.split_off(self.read_pos);
            self.data = rest;
            self.read_pos = 0;
        }
        assert(self.unread() =~= old(self).unread().skip(n as int));
    }

    /// Reads without waiting: takes as many of the unread bytes as `buf` has
    /// room for. A result of zero says that there is nothing to read now.
    pub fn read(&mut self, buf: &mut [u8]) -> (n: usize)
        requires
            old(self).wf(),
        ensures
            final(self).wf(),
            final(self).same_ends(*old(self)),
            n == taken_len(old(self).unread(), old(buf)@.len()),
            final(buf)@ == filled(old(buf)@, old(self).unread().take(n as int)),
            final(self).unread() == old(self).unread().skip(n as int),
            old(self).advanced(n as int, *final(self)),
            pipe_step(*old(self), PipeEvent::Took(old(self).unread().take(n as int)), *final(self)),
    {
        let available: usize = self.data.len() - self.read_pos;
        let n: usize = if buf.len() < available {
            buf.len()
        } else {
            available
        };
        assert(self.unread().take(n as int) =~= self.data@.subrange(
            self.read_pos as int,
            self.read_pos + n,
        ));
        fill(buf, self.data.as_slice(), self.read_pos, n);
        self.advance(n);
        n
    }

    /// Reads for a reader that can wait: takes at most `room` of the unread
    /// bytes. Where there are none, the reader is told whether the pipe is
    /// closed; if it is not, the reader counts as waiting.
    pub fn poll_read(&mut self, room: usize) -> (r: PollRead)
        requires
            old(self).wf(),
        ensures
            final(self).wf(),
            match r {
                PollRead::Data(bytes) => {
                    &&& old(self).unread().len() > 0
                    &&& bytes@ == old(self).unread().take(
                        taken_len(old(self).unread(), room as nat) as int,
                    )
                    &&& final(self).unread() == old(self).unread().skip(bytes@.len() as int)
                    &&& pipe_step(*old(self), PipeEvent::Took(bytes@), *final(self))
                    &&& final(self).same_ends(*old(self))
                    &&& old(self).advanced(bytes@.len() as int, *final(self))
                },
                PollRead::Eof => {
                    &&& old(self).unread().len() == 0
                    &&& old(self).writer_closed
                    &&& *final(self) == *old(self)
                },
                PollRead::Pending => {
                    &&& old(self).unread().len() == 0
                    &&& !old(self).writer_closed
                    &&& *final(self) == (SharedBuffer { reader_waiting: true, ..*old(self) })
                },
            },
    {
        let available: usize = self.data.len() - self.read_pos;
        if available > 0 {
            let n: usize = if room < available {
                room
            } else {
                available
            };
            let mut bytes: Vec<u8> = Vec::new();
            let mut i: usize = 0;
            while i < n
                invariant
                    i <= n,
                    n <= available,
                    available == self.data@.len() - self.read_pos,
                    self.wf(),
                    self.unread() == old(self).unread(),
                    bytes@ == self.unread().take(i as int),
                    *self == *old(self),
                decreases n - i,
            {
                bytes.push(self.data[self.read_pos + i]);
                i = i + 1;
                assert(bytes@ =~= self.unread().take(i as int));
            }
            self.advance(n);
            PollRead::Data(bytes)
        } else if self.writer_closed {
            PollRead::Eof
        } else {
            self.reader_waiting = true;
            PollRead::Pending
        }
    }

    /// Adds bytes for the reader, all of them or none. The result says how
    /// many were taken and whether a waiting reader has to be woken.
    pub fn write(&mut self, buf: &[u8]) -> (r: Result<(usize, bool), IoError>)
        requires
            old(self).wf(),
        ensures
            final(self).wf(),
            r is Ok <==> {
                &&& !old(self).writer_closed
                &&& old(self).data@.len() + buf@.len() <= MAX_PIPE_BUFFER_BYTES
            },
            match r {
                Ok((n, wake)) => {
                    &&& n == buf@.len()
                    &&& wake == old(self).reader_waiting
                    &&& !final(self).reader_waiting
                    &&& final(self).unread() == old(self).unread() + buf@
                    &&& final(self).data@ == old(self).data@ + buf@
                    &&& final(self).read_pos == old(self).read_pos
                    &&& pipe_step(*old(self), PipeEvent::Wrote(buf@), *final(self))
                    &&& final(self).writers == old(self).writers
                    &&& !final(self).writer_closed
                },
                Err(e) => {
                    &&& *final(self) == *old(self)
                    &&& if old(self).writer_closed {
                        e.says(IoErrorKind::BrokenPipe, "pipe closed"@)
                    } else {
                        e.says(
                            IoErrorKind::Other,
                            "pipe buffer exceeded 64 MB limit; use pipelines for large data"@,
                        )
                    }
                },
            },
    {
        if self.writer_closed {
            return Err(IoError::new(IoErrorKind::BrokenPipe, "pipe closed"));
        }
        if buf.len() > MAX_PIPE_BUFFER_BYTES - self.data.len() {
            return Err(
                IoError::new(
                    IoErrorKind::Other,
                    "pipe buffer exceeded 64 MB limit; use pipelines for large data",
                ),
            );
        }
        append_bytes(&mut self.data, buf);
        assert(self.unread() =~= old(self).unread() + buf@);
        let wake = self.reader_waiting;
        self.reader_waiting = false;
        Ok((buf.len(), wake))
    }

    /// A write to the end that is read: it is refused.
    pub fn write_to_reader(&mut self, buf: &[u8]) -> (r: Result<usize, IoError>)
        ensures
            *final(self) == *old(self),
            r matches Err(e) && e.says(IoErrorKind::Other, "pipe reader is not writable"@),
    {
        Err(IoError::new(IoErrorKind::Other, "pipe reader is not writable"))
    }

    /// A read from an end that is written to: it is refused.
    pub fn read_from_writer(&mut self, buf: &mut [u8]) -> (r: Result<usize, IoError>)
        ensures
            *final(self) == *old(self),
            final(buf)@ == old(buf)@,
            r matches Err(e) && e.says(IoErrorKind::Other, "pipe writer is not readable"@),
    {
        Err(IoError::new(IoErrorKind::Other, "pipe writer is not readable"))
    }

    /// Another writer of the same pipe comes into being.
    pub fn add_writer(&mut self)
        requires
            old(self).wf(),
            0 < old(self).writers < usize::MAX,
        ensures
            final(self).wf(),
            *final(self) == (SharedBuffer { writers: (old(self).writers + 1) as usize, ..*old(self) }),
            pipe_step(*old(self), PipeEvent::Other, *final(self)),
    {
        self.writers = self.writers + 1;
    }

    /// A writer is gone. The last one closes the pipe. The result says whether
    /// a waiting reader has to be woken, to see the end.
    pub fn drop_writer(&mut self) -> (wake: bool)
        requires
            old(self).wf(),
            0 < old(self).writers,
        ensures
            final(self).wf(),
            final(self).data == old(self).data,
            final(self).read_pos == old(self).read_pos,
            pipe_step(*old(self), PipeEvent::Other, *final(self)),
            final(self).writers == old(self).writers - 1,
            final(self).writer_closed <==> old(self).writers == 1,
            wake == (old(self).writers == 1 && old(self).reader_waiting),
            final(self).reader_waiting == (old(self).writers > 1 && old(self).reader_waiting),
    {
        self.writers = self.writers - 1;
        if self.writers == 0 {
            self.writer_closed = true;
            let wake = self.reader_waiting;
            self.reader_waiting = false;
            wake
        } else {
            false
        }
    }
}

/// A new pipe: one writer, nothing to read.
pub fn pipe() -> (r: SharedBuffer)
    ensures
        r.wf(),
        r.unread().len() == 0,
        r.data@.len() == 0,
        r.writers == 1,
        !r.writer_closed,
        !r.reader_waiting,
{
    SharedBuffer::new()
}

/// What happened to the bytes of a pipe in one step.
pub enum PipeEvent {
    /// These bytes were written.
    Wrote(Seq<u8>),
    /// These bytes were read.
    Took(Seq<u8>),
    /// Something that moves no bytes.
    Other,
}

/// Whether a pipe can go from one state to the other by the event.
pub open spec fn pipe_step(before: SharedBuffer, event: PipeEvent, after: SharedBuffer) -> bool {
    match event {
        PipeEvent::Wrote(bytes) => after.unread() == before.unread() + bytes,
        PipeEvent::Took(bytes) => {
            &&& bytes.len() <= before.unread().len()
            &&& bytes == before.unread().take(bytes.len() as int)
            &&& after.unread() == before.unread().skip(bytes.len() as int)
        },
        PipeEvent::Other => after.unread() == before.unread(),
    }
}

/// All bytes that the events wrote, in order.
pub open spec fn all_written(events: Seq<PipeEvent>) -> Seq<u8>
    decreases events.len(),
{
    if events.len() == 0 {
        Seq::empty()
    } else {
        match events.last() {
            PipeEvent::Wrote(bytes) => all_written(events.drop_last()) + bytes,
            _ => all_written(events.drop_last()),
        }
    }
}

/// All bytes that the events read, in order.
pub open spec fn all_taken(events: Seq<PipeEvent>) -> Seq<u8>
    decreases events.len(),
{
    if events.len() == 0 {
        Seq::empty()
    } else {
        match events.last() {
            PipeEvent::Took(bytes) => all_taken(events.drop_last()) + bytes,
            _ => all_taken(events.drop_last()),
        }
    }
}

/// Nothing is lost, made up or reordered: at every moment, what was read so
/// far followed by what is still unread is what was written so far.
pub proof fn lemma_pipe_keeps_order(states: Seq<SharedBuffer>, events: Seq<PipeEvent>)
    requires
        states.len() == events.len() + 1,
        states[0].unread().len() == 0,
        forall|i: int|
            0 <= i < events.len() ==> pipe_step(states[i], #[trigger] events[i], states[i + 1]),
    ensures
        all_taken(events) + states.last().unread() == all_written(events),
    decreases events.len(),
{
    if events.len() == 0 {
        assert(all_taken(events) + states.last().unread() =~= all_written(events));
    } else {
        let front_states = states.drop_last();
        let front = events.drop_last();
        assert forall|i: int| 0 <= i < front.len() implies pipe_step(
            front_states[i],
            #[trigger] front[i],
            front_states[i + 1],
        ) by {
            assert(front[i] == events[i]);
        }
        lemma_pipe_keeps_order(front_states, front);
        let n = front.len() as int;
        assert(pipe_step(states[n], events[n], states[n + 1]));
        let before = states[n].unread();
        match events.last() {
            PipeEvent::Took(bytes) => {
                assert(before.take(bytes.len() as int) + before.skip(bytes.len() as int)
                    =~= before);
                assert(all_taken(events) + states.last().unread() =~= all_taken(front) + before);
            },
            PipeEvent::Wrote(bytes) => {
                assert(all_taken(events) + states.last().unread() =~= all_written(events));
            },
            PipeEvent::Other => {},
        }
    }
}

/// A pipe holds at most twice what is unread, so a drained pipe holds nothing
/// and an open one takes every write that leaves it within the limit counted
/// that way.
pub proof fn lemma_pipe_room(pipe: SharedBuffer)
    requires
        pipe.wf(),
    ensures
        pipe.data@.len() <= 2 * pipe.unread().len(),
        pipe.unread().len() == 0 ==> pipe.data@.len() == 0,
{
}

} // verus!
