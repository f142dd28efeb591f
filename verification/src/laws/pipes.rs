//! Laws of pipes.

use vstd::prelude::*;

#[allow(unused_imports)]
use crate::pipe::{
    all_taken, all_written, pipe_step, taken_len, PipeEvent, SharedBuffer, MAX_PIPE_BUFFER_BYTES,
};

verus! {

/// As many bytes are taken as there is room for, or as there are.
pub proof fn law_bytes_taken(unread: Seq<u8>, room: nat)
    ensures
        room <= unread.len() ==> taken_len(unread, room) == room,
        room > unread.len() ==> taken_len(unread, room) == unread.len(),
{
}

/// A pipe holds at most 64 mebibytes, and it is closed exactly when nobody is
/// left who writes.
pub proof fn law_pipe_is_bounded(pipe: SharedBuffer)
    requires
        pipe.wf(),
    ensures
        pipe.data@.len() <= 64 * 1024 * 1024,
        MAX_PIPE_BUFFER_BYTES == 64 * 1024 * 1024,
        pipe.writer_closed <==> pipe.writers == 0,
        2 * pipe.read_pos <= pipe.data@.len(),
{
}

/// What has not been read is what stands behind the position.
pub proof fn law_unread(pipe: SharedBuffer)
    requires
        pipe.wf(),
    ensures
        pipe.unread().len() == pipe.data@.len() - pipe.read_pos,
        forall|i: int|
            0 <= i < pipe.unread().len() ==> #[trigger] pipe.unread()[i] == pipe.data@[pipe.read_pos
                + i],
{
}

/// Taking bytes leaves exactly those behind them, and what was read is let go
/// as soon as it is more than half of all.
pub proof fn law_taking_bytes(before: SharedBuffer, n: int, after: SharedBuffer)
    requires
        before.wf(),
        0 <= n <= before.unread().len(),
        before.advanced(n, after),
    ensures
        after.unread() == before.unread().skip(n),
        2 * after.read_pos <= after.data@.len(),
        after.data@.len() <= before.data@.len(),
{
    assert(after.unread() =~= before.unread().skip(n));
}

/// The ends of two pipes are the same exactly when the same number write, both
/// are open or closed, and a reader waits at both or at none.
pub proof fn law_same_ends(a: SharedBuffer, b: SharedBuffer)
    ensures
        a.same_ends(b) <==> {
            &&& a.writers == b.writers
            &&& a.writer_closed == b.writer_closed
            &&& a.reader_waiting == b.reader_waiting
        },
{
}

/// Written bytes come behind those that wait; taken bytes are the first of
/// them; nothing else moves a byte.
pub proof fn law_steps(before: SharedBuffer, event: PipeEvent, after: SharedBuffer)
    requires
        pipe_step(before, event, after),
    ensures
        event matches PipeEvent::Wrote(bytes) ==> after.unread() == before.unread() + bytes,
        event matches PipeEvent::Took(bytes) ==> bytes + after.unread() == before.unread(),
        event is Other ==> after.unread() == before.unread(),
{
    if let PipeEvent::Took(bytes) = event {
        assert(bytes + after.unread() =~= before.unread());
    }
}

/// One event more adds its bytes behind those of the others, to what was written
/// or to what was taken.
pub proof fn law_one_more_event(events: Seq<PipeEvent>, event: PipeEvent)
    ensures
        all_written(Seq::<PipeEvent>::empty()).len() == 0,
        all_taken(Seq::<PipeEvent>::empty()).len() == 0,
        event matches PipeEvent::Wrote(bytes) ==> {
            &&& all_written(events.push(event)) == all_written(events) + bytes
            &&& all_taken(events.push(event)) == all_taken(events)
        },
        event matches PipeEvent::Took(bytes) ==> {
            &&& all_written(events.push(event)) == all_written(events)
            &&& all_taken(events.push(event)) == all_taken(events) + bytes
        },
        event is Other ==> {
            &&& all_written(events.push(event)) == all_written(events)
            &&& all_taken(events.push(event)) == all_taken(events)
        },
{
    assert(events.push(event).drop_last() =~= events);
}

} // verus!
