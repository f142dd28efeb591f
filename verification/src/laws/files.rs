//! Laws of the files of the JavaScript side.

use vstd::prelude::*;
use vstd::string::*;

#[allow(unused_imports)]
use crate::error::{IoError, IoErrorKind};
#[allow(unused_imports)]
use crate::path::parent;
#[allow(unused_imports)]
use crate::wasm_vfs::{
    adds_chunk, all_bytes, applied, bytes_at, chunk_asked, chunk_of, chunk_read, file_step,
    file_written, filled, handed_over, machine_size, open_file, opened_empty, opened_with,
    parent_made, read_step, serves, writes_whole, JsBackedFile, JsCall,
};

verus! {

/// Writing a file over leaves the written bytes, adding a chunk leaves the
/// bytes before and the chunk, and no call leaves all as it is.
pub proof fn law_calls_change_the_file(js: Seq<u8>, call: Option<JsCall>)
    ensures
        call matches Some(JsCall::WriteFile { path, content }) ==> applied(js, call) == content@,
        call matches Some(JsCall::AppendChunk { path, chunk }) ==> applied(js, call) == js
            + chunk@,
        call is None ==> applied(js, call) == js,
{
}

/// A call that writes a file whole names the file and has all its bytes; one
/// that adds a chunk names the file and has the bytes of the chunk.
pub proof fn law_calls_name_the_file(call: Option<JsCall>, path: Seq<char>, bytes: Seq<u8>)
    ensures
        writes_whole(call, path, bytes) <==> {
            &&& call is Some && call->0 is WriteFile
            &&& call->0->WriteFile_path@ == path
            &&& call->0->content@ == bytes
        },
        adds_chunk(call, path, bytes) <==> {
            &&& call is Some && call->0 is AppendChunk
            &&& call->0->AppendChunk_path@ == path
            &&& call->0->chunk@ == bytes
        },
{
}

/// What is written comes behind what was there, wherever the bytes are kept,
/// and nothing is lost on the way to the JavaScript side. The path, the mode
/// and the position stay.
pub proof fn law_writing_adds_at_the_end(
    before: JsBackedFile,
    buf: Seq<u8>,
    after: JsBackedFile,
    call: Option<JsCall>,
    js: Seq<u8>,
)
    requires
        before.wf(),
        before.in_sync(js),
        file_written(before, buf, after, call),
    ensures
        ({
            let held = if before.spilled {
                js
            } else {
                before.buffer@
            };
            let js_after = match call {
                Some(JsCall::WriteFile { path, content }) => content@,
                Some(JsCall::AppendChunk { path, chunk }) => js + chunk@,
                None => js,
            };
            &&& after.spilled ==> js_after == held + buf
            &&& !after.spilled ==> after.buffer@ == held + buf && after.dirty
            &&& after.spilled <==> before.spilled || before.buffer@.len() + buf.len()
                >= 1_048_576
            &&& after.path == before.path
            &&& after.writable == before.writable
            &&& after.append == before.append
            &&& after.position == before.position
        }),
{
}

/// A file that was opened with content stands at its beginning or, for
/// appending, at its end. All of the content is in memory, unless it is a
/// mebibyte or more: that stays where it is.
pub proof fn law_file_opened_with_content(
    f: JsBackedFile,
    path: Seq<char>,
    bytes: Seq<u8>,
    writable: bool,
    append: bool,
)
    requires
        opened_with(f, path, bytes, writable, append),
    ensures
        f.path@ == path,
        f.writable == writable,
        f.append == append,
        append ==> f.position == bytes.len(),
        !append ==> f.position == 0,
        bytes.len() < 1_048_576 ==> !f.spilled && f.buffer@ == bytes,
        bytes.len() < 1_048_576 ==> f.dirty == append,
        bytes.len() >= 1_048_576 ==> f.spilled && f.buffer@.len() == 0 && !f.dirty && f.js_size
            == bytes.len(),
        f.content(bytes) == bytes,
{
}

/// A file that was opened to be written over is empty, stands at its beginning
/// and has to be written.
pub proof fn law_file_opened_empty(f: JsBackedFile, path: Seq<char>)
    requires
        opened_empty(f, path),
    ensures
        f.path@ == path,
        f.buffer@.len() == 0,
        f.position == 0,
        f.writable,
        !f.append,
        f.dirty,
        !f.spilled,
{
}

/// What a file holds is in memory until it spills and then on the JavaScript
/// side.
pub proof fn law_content(f: JsBackedFile, js: Seq<u8>)
    ensures
        f.spilled ==> f.content(js) == js,
        !f.spilled ==> f.content(js) == f.buffer@,
        f.in_sync(js) && !f.spilled && !f.dirty ==> js == f.content(js),
        f.in_sync(js) && f.spilled && js.len() <= usize::MAX ==> f.js_size == js.len(),
{
    if js.len() <= usize::MAX {
        law_machine_size(js.len());
    }
}

/// A size that the machine can hold is counted as it is, and counting goes
/// round behind the greatest one.
pub proof fn law_machine_size(n: nat)
    ensures
        n <= usize::MAX ==> machine_size(n) == n,
        machine_size(n + usize::MAX as nat + 1) == machine_size(n),
{
    let m = usize::MAX as int + 1;
    if n <= usize::MAX {
        vstd::arithmetic::div_mod::lemma_small_mod(n, m as nat);
    }
    vstd::arithmetic::div_mod::lemma_mod_add_multiples_vanish(n as int, m);
}

/// A read gives the bytes from the position on, as many as asked for or as
/// there are.
pub proof fn law_bytes_read(content: Seq<u8>, position: int, len: int)
    requires
        0 <= position,
        0 <= len,
    ensures
        ({
            let bytes = bytes_at(content, position, len);
            &&& position >= content.len() ==> bytes.len() == 0
            &&& position < content.len() && position + len <= content.len() ==> bytes.len() == len
            &&& position < content.len() && position + len > content.len() ==> bytes.len()
                == content.len() - position
            &&& forall|i: int| 0 <= i < bytes.len() ==> #[trigger] bytes[i] == content[position + i]
        }),
{
}

/// A buffer that is filled keeps its length: it begins with the bytes and stays
/// as it was behind them.
pub proof fn law_filled_buffer(buf: Seq<u8>, bytes: Seq<u8>)
    requires
        bytes.len() <= buf.len(),
    ensures
        filled(buf, bytes).len() == buf.len(),
        forall|i: int| 0 <= i < bytes.len() ==> #[trigger] filled(buf, bytes)[i] == bytes[i],
        forall|i: int|
            bytes.len() <= i < buf.len() ==> #[trigger] filled(buf, bytes)[i] == buf[i],
{
}

/// Reading a spilled file asks once for the chunk at its position, as long as
/// the buffer, and puts the bytes of the reply at the beginning of the buffer.
pub proof fn law_chunk_is_asked_for<W, C: Fn(W, &str, u32, u32) -> (W, Option<Vec<u8>>)>(
    read_chunk: C,
    world: W,
    file: JsBackedFile,
    buf: Seq<u8>,
    after: W,
    n: usize,
    filled_buf: Seq<u8>,
)
    requires
        chunk_read(read_chunk, world, file, buf, after, n, filled_buf),
        file.position <= u32::MAX,
        buf.len() <= u32::MAX,
    ensures
        n <= buf.len(),
        filled_buf.len() == buf.len(),
        forall|i: int| n <= i < buf.len() ==> #[trigger] filled_buf[i] == buf[i],
        exists|p: &str, offset: u32, len: u32, reply: Option<Vec<u8>>|
            {
                &&& #[trigger] call_ensures(read_chunk, (world, p, offset, len), (after, reply))
                &&& p@ == file.path@
                &&& offset == file.position
                &&& len == buf.len()
                &&& reply is None ==> n == 0
                &&& reply matches Some(bytes) ==> {
                    &&& bytes@.len() <= buf.len() ==> n == bytes@.len()
                    &&& bytes@.len() > buf.len() ==> n == buf.len()
                    &&& forall|i: int| 0 <= i < n ==> #[trigger] filled_buf[i] == bytes@[i]
                }
            },
{
    let reply = choose|reply: Option<Vec<u8>>|
        {
            &&& #[trigger] chunk_asked(
                read_chunk,
                world,
                file.path@,
                file.position as u32,
                buf.len() as u32,
                after,
                reply,
            )
            &&& match reply {
                Some(bytes) => {
                    &&& n == if bytes@.len() < buf.len() {
                        bytes@.len()
                    } else {
                        buf.len()
                    }
                    &&& filled_buf == filled(buf, bytes@.take(n as int))
                },
                None => n == 0 && filled_buf == buf,
            }
        };
    let offset = file.position as u32;
    let len = buf.len() as u32;
    let p = choose|p: &str|
        p@ == file.path@ && #[trigger] call_ensures(
            read_chunk,
            (world, p, offset, len),
            (after, reply),
        );
    assert(call_ensures(read_chunk, (world, p, offset, len), (after, reply)));
    if let Some(bytes) = reply {
        law_filled_buffer(buf, bytes@.take(n as int));
    }
}

/// What is handed over for a write: nothing while all that was written is below
/// a mebibyte, everything when it first reaches that, and from there on what
/// was just written.
pub proof fn law_handed_over(
    path: Seq<char>,
    before: Seq<u8>,
    buf: Seq<u8>,
    call: Option<JsCall>,
)
    requires
        handed_over(path, before, buf, call),
    ensures
        before.len() + buf.len() < 1_048_576 ==> call is None,
        before.len() < 1_048_576 && before.len() + buf.len() >= 1_048_576 ==> {
            &&& call is Some && call->0 is WriteFile
            &&& call->0->WriteFile_path@ == path
            &&& call->0->content@ == before + buf
        },
        before.len() >= 1_048_576 ==> {
            &&& call is Some && call->0 is AppendChunk
            &&& call->0->AppendChunk_path@ == path
            &&& call->0->chunk@ == buf
        },
{
}

/// The bytes of pieces are those of the first ones and behind them those of the
/// last.
pub proof fn law_pieces(pieces: Seq<Seq<u8>>, last: Seq<u8>)
    ensures
        all_bytes(Seq::<Seq<u8>>::empty()).len() == 0,
        all_bytes(pieces.push(last)) == all_bytes(pieces) + last,
{
    assert(pieces.push(last).drop_last() =~= pieces);
}

/// A read gives bytes of the content from its position on and moves behind
/// them.
pub proof fn law_read_moves_on(
    content: Seq<u8>,
    position: int,
    len: int,
    bytes: Seq<u8>,
    next: int,
)
    requires
        read_step(content, position, len, bytes, next),
        0 <= position <= content.len(),
    ensures
        next == position + bytes.len(),
        next <= content.len(),
        bytes == content.subrange(position, next),
        next == position + len || next == content.len(),
{
}

/// One step of writing keeps all that was there and adds what is written.
pub proof fn law_step_adds(
    before: JsBackedFile,
    js: Seq<u8>,
    written: Seq<u8>,
    after: JsBackedFile,
    js_after: Seq<u8>,
)
    requires
        file_step(before, js, written, after, js_after),
    ensures
        (if after.spilled {
            js_after
        } else {
            after.buffer@
        }) == (if before.spilled {
            js
        } else {
            before.buffer@
        }) + written,
        !after.spilled && !after.dirty ==> js_after == after.buffer@,
{
}

/// Closing a file leaves on the JavaScript side what the file holds.
pub proof fn law_closing_keeps_the_content(f: JsBackedFile, call: Option<JsCall>, js: Seq<u8>)
    requires
        f.wf(),
        f.in_sync(js),
        call_ensures(JsBackedFile::close, (f,), call),
    ensures
        ({
            let js_after = match call {
                Some(JsCall::WriteFile { path, content }) => content@,
                Some(JsCall::AppendChunk { path, chunk }) => js + chunk@,
                None => js,
            };
            &&& f.spilled ==> js_after == js
            &&& !f.spilled ==> js_after == f.buffer@
            &&& call is Some ==> f.dirty && f.writable && !f.spilled
            &&& call matches Some(JsCall::WriteFile { path, content }) ==> path@ == f.path@
            &&& !(call is Some && call->0 is AppendChunk)
        }),
{
    assert(applied(js, call) == f.content(js));
}

/// The directory that the path lies in is made; a path that lies in nothing
/// makes nothing.
pub proof fn law_parent_is_made<W, M: Fn(W, &str) -> W>(
    mkdir: M,
    world: W,
    path: Seq<char>,
    made: W,
)
    requires
        parent_made(mkdir, world, path, made),
    ensures
        parent(path) matches Some(dir) ==> exists|p: &str|
            p@ == dir && #[trigger] call_ensures(mkdir, (world, p), made),
        parent(path) is None ==> made == world,
{
}

/// A file that is opened for appending has the content that is there, or none,
/// and stands behind it.
pub proof fn law_open_for_appending<
    W,
    R: Fn(&W, &str) -> Option<Vec<u8>>,
    M: Fn(W, &str) -> W,
>(
    world: W,
    read_file: R,
    mkdir: M,
    path: &str,
    read: bool,
    write: bool,
    create: bool,
    r: (W, Result<JsBackedFile, IoError>),
)
    requires
        call_ensures(
            open_file::<W, R, M>,
            (world, read_file, mkdir, path, read, write, create, true),
            r,
        ),
    ensures
        r.1 is Ok,
        ({
            let f = r.1->Ok_0;
            &&& f.path@ == path@
            &&& f.writable && f.append
            &&& exists|p: &str, content: Option<Vec<u8>>|
                {
                    &&& p@ == path@
                    &&& #[trigger] call_ensures(read_file, (&world, p), content)
                    &&& content is None ==> f.buffer@.len() == 0 && f.position == 0 && !f.spilled
                    &&& content matches Some(bytes) ==> {
                        &&& f.position == bytes@.len()
                        &&& bytes@.len() < 1_048_576 ==> !f.spilled && f.buffer@ == bytes@
                        &&& bytes@.len() >= 1_048_576 ==> f.spilled && f.js_size == bytes@.len()
                    }
                }
            &&& parent(path@) matches Some(dir) ==> exists|p: &str|
                p@ == dir && #[trigger] call_ensures(mkdir, (world, p), r.0)
            &&& parent(path@) is None ==> r.0 == world
        }),
{
    let (p, content) = choose|p: &str, content: Option<Vec<u8>>|
        {
            &&& p@ == path@
            &&& #[trigger] call_ensures(read_file, (&world, p), content)
            &&& parent_made(mkdir, world, path@, r.0)
            &&& r.1 matches Ok(f) && opened_with(
                f,
                path@,
                match content {
                    Some(bytes) => bytes@,
                    None => Seq::empty(),
                },
                true,
                true,
            )
        };
    assert(call_ensures(read_file, (&world, p), content));
}

/// A file that is opened for writing and not for appending is empty, whatever
/// was there.
pub proof fn law_open_for_writing<
    W,
    R: Fn(&W, &str) -> Option<Vec<u8>>,
    M: Fn(W, &str) -> W,
>(
    world: W,
    read_file: R,
    mkdir: M,
    path: &str,
    read: bool,
    create: bool,
    r: (W, Result<JsBackedFile, IoError>),
)
    requires
        call_ensures(
            open_file::<W, R, M>,
            (world, read_file, mkdir, path, read, true, create, false),
            r,
        ),
    ensures
        r.1 is Ok,
        ({
            let f = r.1->Ok_0;
            &&& f.path@ == path@
            &&& f.writable && !f.append && f.dirty && !f.spilled
            &&& f.buffer@.len() == 0 && f.position == 0
            &&& parent(path@) matches Some(dir) ==> exists|p: &str|
                p@ == dir && #[trigger] call_ensures(mkdir, (world, p), r.0)
            &&& parent(path@) is None ==> r.0 == world
        }),
{
}

/// A file that is only to be created keeps the content that is there, and
/// nothing is made for it; else it is empty.
pub proof fn law_open_for_creating<
    W,
    R: Fn(&W, &str) -> Option<Vec<u8>>,
    M: Fn(W, &str) -> W,
>(
    world: W,
    read_file: R,
    mkdir: M,
    path: &str,
    read: bool,
    r: (W, Result<JsBackedFile, IoError>),
)
    requires
        call_ensures(
            open_file::<W, R, M>,
            (world, read_file, mkdir, path, read, false, true, false),
            r,
        ),
    ensures
        r.1 is Ok,
        ({
            let f = r.1->Ok_0;
            &&& f.path@ == path@
            &&& f.writable && !f.append && f.position == 0
            &&& exists|p: &str, content: Option<Vec<u8>>|
                {
                    &&& p@ == path@
                    &&& #[trigger] call_ensures(read_file, (&world, p), content)
                    &&& content is None ==> f.buffer@.len() == 0 && f.dirty && !f.spilled
                        && parent_made(mkdir, world, path@, r.0)
                    &&& content matches Some(bytes) ==> {
                        &&& r.0 == world
                        &&& !f.dirty
                        &&& bytes@.len() < 1_048_576 ==> !f.spilled && f.buffer@ == bytes@
                        &&& bytes@.len() >= 1_048_576 ==> f.spilled && f.js_size == bytes@.len()
                    }
                }
        }),
{
    let (p, content) = choose|p: &str, content: Option<Vec<u8>>|
        {
            &&& p@ == path@
            &&& #[trigger] call_ensures(read_file, (&world, p), content)
            &&& r.1 matches Ok(f) && match content {
                Some(bytes) => r.0 == world && opened_with(f, path@, bytes@, true, false),
                None => parent_made(mkdir, world, path@, r.0) && opened_empty(f, path@),
            }
        };
    assert(call_ensures(read_file, (&world, p), content));
}

/// A file that is only read cannot be written and has the content that is
/// there; where nothing is there, that is the error. The file system stays as
/// it is.
pub proof fn law_open_for_reading<
    W,
    R: Fn(&W, &str) -> Option<Vec<u8>>,
    M: Fn(W, &str) -> W,
>(
    world: W,
    read_file: R,
    mkdir: M,
    path: &str,
    r: (W, Result<JsBackedFile, IoError>),
)
    requires
        call_ensures(
            open_file::<W, R, M>,
            (world, read_file, mkdir, path, true, false, false, false),
            r,
        ),
    ensures
        r.0 == world,
        exists|p: &str, content: Option<Vec<u8>>|
            {
                &&& p@ == path@
                &&& #[trigger] call_ensures(read_file, (&world, p), content)
                &&& r.1 is Ok <==> content is Some
                &&& r.1 matches Ok(f) ==> {
                    let bytes = content->0@;
                    &&& f.path@ == path@
                    &&& !f.writable && !f.append && !f.dirty && f.position == 0
                    &&& bytes.len() < 1_048_576 ==> !f.spilled && f.buffer@ == bytes
                    &&& bytes.len() >= 1_048_576 ==> f.spilled && f.js_size == bytes.len()
                }
                &&& r.1 matches Err(e) ==> e.kind == IoErrorKind::NotFound && e.message@
                    == "file not found: "@ + path@
            },
{
    let (p, content) = choose|p: &str, content: Option<Vec<u8>>|
        {
            &&& p@ == path@
            &&& #[trigger] call_ensures(read_file, (&world, p), content)
            &&& match (r.1, content) {
                (Ok(f), Some(bytes)) => opened_with(f, path@, bytes@, false, false),
                (Err(e), None) => e.says(IoErrorKind::NotFound, "file not found: "@ + path@),
                _ => false,
            }
        };
    assert(call_ensures(read_file, (&world, p), content));
}

/// A file cannot be opened for nothing.
pub proof fn law_open_for_nothing<
    W,
    R: Fn(&W, &str) -> Option<Vec<u8>>,
    M: Fn(W, &str) -> W,
>(
    world: W,
    read_file: R,
    mkdir: M,
    path: &str,
    r: (W, Result<JsBackedFile, IoError>),
)
    requires
        call_ensures(
            open_file::<W, R, M>,
            (world, read_file, mkdir, path, false, false, false, false),
            r,
        ),
    ensures
        r.0 == world,
        r.1 is Err,
        r.1->Err_0.kind == IoErrorKind::InvalidInput,
        r.1->Err_0.message@ == "no file mode specified"@,
{
}

/// A file is in order when its position lies within what is in memory, nothing
/// is in memory once it has spilled, and only a writable file waits to be
/// written.
pub proof fn law_file_in_order(f: JsBackedFile)
    ensures
        f.wf() <==> {
            &&& f.spilled || f.position <= f.buffer@.len()
            &&& !f.spilled || (f.buffer@.len() == 0 && !f.dirty)
            &&& !f.dirty || f.writable
        },
{
}

/// A file in memory that waits to be written says nothing of the JavaScript
/// side; one that does not wait is there as it is in memory.
pub proof fn law_in_sync(f: JsBackedFile, js: Seq<u8>)
    ensures
        !f.spilled && f.dirty ==> f.in_sync(js),
        !f.spilled && !f.dirty ==> (f.in_sync(js) <==> js == f.buffer@),
        f.spilled && js.len() <= usize::MAX ==> (f.in_sync(js) <==> f.js_size == js.len()),
{
    if js.len() <= usize::MAX {
        law_machine_size(js.len());
    }
}

/// A side that serves a file answers a request with the bytes from the offset
/// on, as many as asked for or as there are, and may leave out the answer only
/// behind the end.
pub proof fn law_served_chunks<W, C: Fn(W, &str, u32, u32) -> (W, Option<Vec<u8>>)>(
    read_chunk: C,
    path: &str,
    js: Seq<u8>,
    world: W,
    offset: u32,
    len: u32,
    after: W,
    reply: Option<Vec<u8>>,
)
    requires
        serves(read_chunk, path@, js),
        call_ensures(read_chunk, (world, path, offset, len), (after, reply)),
    ensures
        reply is None ==> offset >= js.len(),
        reply matches Some(bytes) ==> {
            &&& offset >= js.len() ==> bytes@.len() == 0
            &&& offset + len <= js.len() ==> bytes@ == js.subrange(
                offset as int,
                offset + len,
            )
            &&& offset < js.len() < offset + len ==> bytes@ == js.skip(offset as int)
        },
{
    assert(chunk_of(reply, js, offset as int, len as int));
    if offset < js.len() {
        assert(js.subrange(offset as int, js.len() as int) =~= js.skip(offset as int));
    }
}

} // verus!
