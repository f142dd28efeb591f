//! Files that live on the JavaScript side of the page.
//!
//! A small file is kept in memory and written over as a whole when it is
//! flushed. A file that has the size of the spill threshold when it is opened,
//! or grows to it, stays on the JavaScript side and is written and read in
//! chunks.

use vstd::prelude::*;
use vstd::slice::*;
use vstd::string::*;

use crate::error::{IoError, IoErrorKind};
use crate::json::{parse_array, parse_value, scalar_member, JsonScalar};
#[allow(unused_imports)]
use crate::json::{
    flag_of, json_of, jsons, member, parsed_array, parsed_value, text_of, unsigned_of, Json,
};
#[allow(unused_imports)]
use crate::path::parent;
use crate::path::parent_of;

verus! {

/// The size from which on a file no longer stays in memory: one mebibyte.
pub const SPILL_THRESHOLD: usize = 1_048_576;

/// A directory entry: name, size, whether it is a directory, and the time of
/// the last change in milliseconds.
pub type VfsDirEntry = (String, u64, bool, u64);

/// What is known of a file: size, whether it is a directory, and the time of
/// the last change in milliseconds.
pub type VfsStat = (u64, bool, u64);

/// A directory entry as a value.
#[verifier::ext_equal]
pub struct EntryView {
    pub name: Seq<char>,
    pub size: u64,
    pub is_dir: bool,
    pub modified: u64,
}

/// The entry as a value.
pub open spec fn entry_view(entry: VfsDirEntry) -> EntryView {
    EntryView { name: entry.0@, size: entry.1, is_dir: entry.2, modified: entry.3 }
}

/// The entries as values.
pub open spec fn entry_views(entries: Seq<VfsDirEntry>) -> Seq<EntryView> {
    Seq::new(entries.len(), |i: int| entry_view(entries[i]))
}

/// The value in the option, or `default`.
pub open spec fn or_default<T>(value: Option<T>, default: T) -> T {
    match value {
        Some(v) => v,
        None => default,
    }
}

/// The record that a JSON value stands for. It has to have the members `size`,
/// `is_dir` and `modified`; one of another type counts as zero or false.
pub open spec fn record_stat(value: Json) -> Option<VfsStat> {
    match (
        member(value, "size"@),
        member(value, "is_dir"@),
        member(value, "modified"@),
    ) {
        (Some(size), Some(is_dir), Some(modified)) => Some(
            (
                or_default(unsigned_of(size), 0),
                or_default(flag_of(is_dir), false),
                or_default(unsigned_of(modified), 0),
            ),
        ),
        _ => None,
    }
}

/// The directory entry that a JSON value stands for: a record with a member
/// `name` that is a string.
pub open spec fn record_entry(value: Json) -> Option<EntryView> {
    match (member(value, "name"@), record_stat(value)) {
        (Some(name), Some((size, is_dir, modified))) => match text_of(name) {
            Some(name) => Some(EntryView { name, size, is_dir, modified }),
            None => None,
        },
        _ => None,
    }
}

/// The entries among the values, in their order.
pub open spec fn record_entries(values: Seq<Json>) -> Seq<EntryView>
    decreases values.len(),
{
    if values.len() == 0 {
        Seq::empty()
    } else {
        match record_entry(values.last()) {
            Some(entry) => record_entries(values.drop_last()).push(entry),
            None => record_entries(values.drop_last()),
        }
    }
}

/// The number that a member of a record stands for; zero where it is none.
fn number_or_zero(field: &JsonScalar) -> (r: u64)
    ensures
        r == (match *field {
            JsonScalar::Unsigned(n) => n,
            _ => 0,
        }),
{
    match field {
        JsonScalar::Unsigned(n) => *n,
        _ => 0,
    }
}

/// The record made of its three members.
pub fn stat_from_fields(
    size: Option<JsonScalar>,
    is_dir: Option<JsonScalar>,
    modified: Option<JsonScalar>,
) -> (r: Option<VfsStat>)
    ensures
        r is Some <==> (size is Some && is_dir is Some && modified is Some),
        r matches Some((s, d, m)) ==> {
            &&& s == (if size->0 is Unsigned { size->0->Unsigned_0 } else { 0 })
            &&& d == (if is_dir->0 is Flag { is_dir->0->Flag_0 } else { false })
            &&& m == (if modified->0 is Unsigned { modified->0->Unsigned_0 } else { 0 })
        },
{
    match (size, is_dir, modified) {
        (Some(s), Some(d), Some(m)) => {
            let directory = match d {
                JsonScalar::Flag(b) => b,
                _ => false,
            };
            Some((number_or_zero(&s), directory, number_or_zero(&m)))
        },
        _ => None,
    }
}

/// The directory entry made of a name and a record.
pub fn entry_from_fields(name: Option<JsonScalar>, stat: Option<VfsStat>) -> (r: Option<VfsDirEntry>)
    ensures
        r is Some <==> (name is Some && name->0 is Text && stat is Some),
        r is Some ==> entry_view(r->0) == (
        EntryView {
            name: name->0->Text_0@,
            size: (stat->0).0,
            is_dir: (stat->0).1,
            modified: (stat->0).2,
        }),
{
    match (name, stat) {
        (Some(JsonScalar::Text(n)), Some((s, d, m))) => Some((n, s, d, m)),
        _ => None,
    }
}

/// The record that a parsed value stands for.
pub fn stat_of_value(value: &serde_json::Value) -> (r: Option<VfsStat>)
    ensures
        r == record_stat(json_of(*value)),
{
    stat_from_fields(
        scalar_member(value, "size"),
        scalar_member(value, "is_dir"),
        scalar_member(value, "modified"),
    )
}

/// The directory entries among parsed values, in their order.
pub fn entries_of_values(values: &Vec<serde_json::Value>) -> (r: Vec<VfsDirEntry>)
    ensures
        entry_views(r@) == record_entries(jsons(values@)),
{
    let mut r: Vec<VfsDirEntry> = Vec::new();
    let mut i: usize = 0;
    assert(entry_views(r@) =~= record_entries(jsons(values@).take(0)));
    while i < values.len()
        invariant
            i <= values@.len(),
            entry_views(r@) == record_entries(jsons(values@).take(i as int)),
        decreases values@.len() - i,
    {
        let value = &values[i];
        let ghost before = r@;
        let ghost json = json_of(*value);
        assert(jsons(values@).take(i + 1).drop_last() =~= jsons(values@).take(i as int));
        assert(jsons(values@).take(i + 1).last() == json);
        if let Some(entry) = entry_from_fields(scalar_member(value, "name"), stat_of_value(value)) {
            r.push(entry);
            assert(entry_views(r@) =~= entry_views(before).push(entry_view(entry)));
        }
        i = i + 1;
    }
    assert(jsons(values@).take(values@.len() as int) =~= jsons(values@));
    r
}

/// The directory listing that the JavaScript side answered with: a text that
/// holds a JSON array of records. There is none where there was no such text
/// or it is no JSON array.
pub fn list_dir(reply: Option<String>) -> (r: Option<Vec<VfsDirEntry>>)
    ensures
        r is Some <==> (reply matches Some(text) && parsed_array(text@) is Some),
        r matches Some(entries) ==> entry_views(entries@) == record_entries(
            parsed_array(reply->0@)->0,
        ),
{
    match reply {
        Some(text) => match parse_array(text.as_str()) {
            Ok(values) => Some(entries_of_values(&values)),
            Err(_) => None,
        },
        None => None,
    }
}

/// The record of a file or directory that the JavaScript side answered with: a
/// text that holds a JSON object.
pub fn stat(reply: Option<String>) -> (r: Option<VfsStat>)
    ensures
        r == (match reply {
            Some(text) => match parsed_value(text@) {
                Some(value) => record_stat(value),
                None => None,
            },
            None => None,
        }),
{
    match reply {
        Some(text) => match parse_value(text.as_str()) {
            Ok(value) => stat_of_value(&value),
            Err(_) => None,
        },
        None => None,
    }
}

/// A change that has to be made on the JavaScript side.
pub enum JsCall {
    /// Write the file over with the given content.
    WriteFile { path: String, content: Vec<u8> },
    /// Add the chunk at the end of the file.
    AppendChunk { path: String, chunk: Vec<u8> },
}

/// What the file holds on the JavaScript side after the call, if there is one.
pub open spec fn applied(js: Seq<u8>, call: Option<JsCall>) -> Seq<u8> {
    match call {
        Some(JsCall::WriteFile { path, content }) => content@,
        Some(JsCall::AppendChunk { path, chunk }) => js + chunk@,
        None => js,
    }
}

/// Whether the call writes the file at `path` over with `bytes`.
pub open spec fn writes_whole(call: Option<JsCall>, path: Seq<char>, bytes: Seq<u8>) -> bool {
    call matches Some(JsCall::WriteFile { path: p, content }) && p@ == path && content@ == bytes
}

/// Whether the call adds `bytes` at the end of the file at `path`.
pub open spec fn adds_chunk(call: Option<JsCall>, path: Seq<char>, bytes: Seq<u8>) -> bool {
    call matches Some(JsCall::AppendChunk { path: p, chunk }) && p@ == path && chunk@ == bytes
}

/// The bytes that a read of `len` bytes at `position` gives.
pub open spec fn bytes_at(content: Seq<u8>, position: int, len: int) -> Seq<u8> {
    let from = if position < content.len() {
        position
    } else {
        content.len() as int
    };
    let to = if position + len < content.len() {
        position + len
    } else {
        content.len() as int
    };
    content.subrange(from, to)
}

/// `buf` with its beginning written over by `bytes`.
pub open spec fn filled(buf: Seq<u8>, bytes: Seq<u8>) -> Seq<u8> {
    bytes + buf.skip(bytes.len() as int)
}

/// Whether a reply to a request for a chunk gives the bytes of a file that
/// holds `js`. There may be no reply where the file has ended.
pub open spec fn chunk_of(reply: Option<Vec<u8>>, js: Seq<u8>, offset: int, len: int) -> bool {
    match reply {
        Some(bytes) => bytes@ == bytes_at(js, offset, len),
        None => offset >= js.len(),
    }
}

/// Whether the chunks that `read_chunk` gives for `path` are those of a file
/// that holds `js`.
pub open spec fn serves<W, C: Fn(W, &str, u32, u32) -> (W, Option<Vec<u8>>)>(
    read_chunk: C,
    path: Seq<char>,
    js: Seq<u8>,
) -> bool {
    forall|w: W, p: &str, offset: u32, len: u32, after: W, reply: Option<Vec<u8>>|
        p@ == path && #[trigger] call_ensures(read_chunk, (w, p, offset, len), (after, reply))
            ==> chunk_of(reply, js, offset as int, len as int)
}

/// Whether asking for a chunk of the file at `path` can leave `after` and give
/// `reply`.
pub open spec fn chunk_asked<W, C: Fn(W, &str, u32, u32) -> (W, Option<Vec<u8>>)>(
    read_chunk: C,
    world: W,
    path: Seq<char>,
    offset: u32,
    len: u32,
    after: W,
    reply: Option<Vec<u8>>,
) -> bool {
    exists|p: &str|
        p@ == path && #[trigger] call_ensures(read_chunk, (world, p, offset, len), (after, reply))
}

/// A length as the machine counts it: sizes that it cannot hold wrap around.
pub open spec fn machine_size(n: nat) -> usize {
    (n % (usize::MAX as nat + 1)) as usize
}

/// Counting on from a length counts the longer length.
proof fn lemma_machine_size_grows(n: nat, more: usize)
    ensures
        machine_size(n).wrapping_add(more) == machine_size(n + more as nat),
{
    let m = usize::MAX as int + 1;
    let s = n as int % m;
    vstd::arithmetic::div_mod::lemma_add_mod_noop(n as int, more as int, m);
    vstd::arithmetic::div_mod::lemma_small_mod(more as nat, m as nat);
    assert((n + more) % m == (s + more) % m);
    if s + more < m {
        vstd::arithmetic::div_mod::lemma_small_mod((s + more) as nat, m as nat);
    } else {
        vstd::arithmetic::div_mod::lemma_small_mod((s + more - m) as nat, m as nat);
        vstd::arithmetic::div_mod::lemma_mod_sub_multiples_vanish(s + more, m);
    }
}

/// An open file of the JavaScript side.
pub struct JsBackedFile {
    pub path: String,
    pub buffer: Vec<u8>,
    pub position: usize,
    pub writable: bool,
    pub append: bool,
    pub dirty: bool,
    pub spilled: bool,
    pub js_size: usize,
}

/// Whether `f` is a file with content that was just opened: at its end for
/// appending and otherwise at its beginning. Below the threshold the content is
/// in memory; from there on it stays on the JavaScript side.
pub open spec fn opened_with(
    f: JsBackedFile,
    path: Seq<char>,
    bytes: Seq<u8>,
    writable: bool,
    append: bool,
) -> bool {
    &&& f.wf()
    &&& f.path@ == path
    &&& f.writable == writable
    &&& f.append == append
    &&& f.position == if append {
        bytes.len()
    } else {
        0
    }
    &&& if bytes.len() >= SPILL_THRESHOLD {
        &&& f.spilled
        &&& f.buffer@.len() == 0
        &&& f.js_size == bytes.len()
        &&& !f.dirty
    } else {
        &&& !f.spilled
        &&& f.buffer@ == bytes
        &&& f.js_size == 0
        &&& f.dirty == append
    }
    &&& f.in_sync(bytes)
    &&& f.content(bytes) == bytes
}

/// Whether `f` is an empty file that was just opened for writing and still has
/// to be written.
pub open spec fn opened_empty(f: JsBackedFile, path: Seq<char>) -> bool {
    &&& f.wf()
    &&& f.path@ == path
    &&& f.buffer@.len() == 0
    &&& f.position == 0
    &&& f.js_size == 0
    &&& f.writable && !f.append && f.dirty && !f.spilled
}

/// What has to be done on the JavaScript side when `buf` is written to a file
/// of which `before` was written already: nothing while all of it is below the
/// threshold, then one write of everything, then one chunk each time.
pub open spec fn handed_over(
    path: Seq<char>,
    before: Seq<u8>,
    buf: Seq<u8>,
    call: Option<JsCall>,
) -> bool {
    if before.len() + buf.len() < SPILL_THRESHOLD {
        call is None
    } else if before.len() < SPILL_THRESHOLD {
        writes_whole(call, path, before + buf)
    } else {
        adds_chunk(call, path, buf)
    }
}

/// Whether writing `buf` to a writable file can leave `after` and ask for
/// `call`.
pub open spec fn file_written(
    before: JsBackedFile,
    buf: Seq<u8>,
    after: JsBackedFile,
    call: Option<JsCall>,
) -> bool {
    let whole = before.buffer@ + buf;
    if before.spilled {
        &&& adds_chunk(call, before.path@, buf)
        &&& after == (JsBackedFile {
            js_size: before.js_size.wrapping_add(buf.len() as usize),
            ..before
        })
    } else if whole.len() >= SPILL_THRESHOLD {
        &&& writes_whole(call, before.path@, whole)
        &&& after.buffer@.len() == 0
        &&& after == (JsBackedFile {
            buffer: after.buffer,
            spilled: true,
            dirty: false,
            js_size: whole.len() as usize,
            ..before
        })
    } else {
        &&& call is None
        &&& after.buffer@ == whole
        &&& after == (JsBackedFile { buffer: after.buffer, dirty: true, ..before })
    }
}

/// Whether reading `n` bytes of a file that has spilled can leave `after` and
/// `filled_buf`: one chunk is asked for, at the position and of the length of
/// `buf`, and as many of its bytes as there is room for are taken.
pub open spec fn chunk_read<W, C: Fn(W, &str, u32, u32) -> (W, Option<Vec<u8>>)>(
    read_chunk: C,
    world: W,
    file: JsBackedFile,
    buf: Seq<u8>,
    after: W,
    n: usize,
    filled_buf: Seq<u8>,
) -> bool {
    exists|reply: Option<Vec<u8>>|
        {
            &&& #[trigger] chunk_asked(
                read_chunk,
                world,
                file.path@,
                file.position as u32,
                buf.len() as u32,
                after,
                reply,
            )
            &&& match reply {
                Some(bytes) => {
                    &&& n == if bytes@.len() < buf.len() {
                        bytes@.len()
                    } else {
                        buf.len()
                    }
                    &&& filled_buf == filled(buf, bytes@.take(n as int))
                },
                None => n == 0 && filled_buf == buf,
            }
        }
}

impl JsBackedFile {
    /// A file in memory is read at a position inside the buffer. Of a file that
    /// has spilled, the buffer is empty and nothing waits to be written. Only a
    /// writable file has something to write.
    pub open spec fn wf(self) -> bool {
        &&& !self.spilled ==> self.position <= self.buffer@.len()
        &&& self.spilled ==> self.buffer@.len() == 0 && !self.dirty
        &&& self.dirty ==> self.writable
    }

    /// What the file holds, given what the JavaScript side has of it.
    pub open spec fn content(self, js: Seq<u8>) -> Seq<u8> {
        if self.spilled {
            js
        } else {
            self.buffer@
        }
    }

    /// Whether the JavaScript side has what it should: everything, once the
    /// file has spilled or has nothing left to write.
    pub open spec fn in_sync(self, js: Seq<u8>) -> bool {
        &&& self.spilled ==> self.js_size == machine_size(js.len())
        &&& !self.spilled && !self.dirty ==> js == self.buffer@
    }

    /// A file that has the given content.
    fn over_content(path: &str, bytes: Vec<u8>, writable: bool, append: bool) -> (f: JsBackedFile)
        requires
            append ==> writable,
        ensures
            opened_with(f, path@, bytes@, writable, append),
    {
        let size: usize = bytes.len();
        let position: usize = if append {
            size
        } else {
            0
        };
        let spilled = size >= SPILL_THRESHOLD;
        proof {
            vstd::arithmetic::div_mod::lemma_small_mod(size as nat, (usize::MAX + 1) as nat);
        }
        JsBackedFile {
            path: path.to_owned(),
            buffer: if spilled {
                Vec::new()
            } else {
                bytes
            },
            position,
            writable,
            append,
            dirty: append && !spilled,
            spilled,
            js_size: if spilled {
                size
            } else {
                0
            },
        }
    }

    /// Opens a file for reading. `content` is what the JavaScript side has.
    pub fn open_read(path: &str, content: Option<Vec<u8>>) -> (r: Result<JsBackedFile, IoError>)
        ensures
            match (r, content) {
                (Ok(f), Some(bytes)) => opened_with(f, path@, bytes@, false, false),
                (Err(e), None) => e.says(IoErrorKind::NotFound, "file not found: "@ + path@),
                _ => false,
            },
    {
        match content {
            Some(bytes) => Ok(JsBackedFile::over_content(path, bytes, false, false)),
            None => {
                let message = "file not found: ".to_owned().concat(path);
                Err(IoError::new(IoErrorKind::NotFound, message.as_str()))
            },
        }
    }

    /// Opens a file for writing from the beginning.
    pub fn open_write(path: &str) -> (f: JsBackedFile)
        ensures
            opened_empty(f, path@),
            forall|js: Seq<u8>| f.in_sync(js),
    {
        JsBackedFile {
            path: path.to_owned(),
            buffer: Vec::new(),
            position: 0,
            writable: true,
            append: false,
            dirty: true,
            spilled: false,
            js_size: 0,
        }
    }

    /// Opens a file that is to exist. `content` is what the JavaScript side has
    /// and is kept; a file that it does not have is created empty.
    pub fn open_create(path: &str, content: Option<Vec<u8>>) -> (f: JsBackedFile)
        ensures
            match content {
                Some(bytes) => opened_with(f, path@, bytes@, true, false),
                None => opened_empty(f, path@) && forall|js: Seq<u8>| f.in_sync(js),
            },
    {
        match content {
            Some(bytes) => JsBackedFile::over_content(path, bytes, true, false),
            None => JsBackedFile::open_write(path),
        }
    }

    /// Opens a file for writing at its end. `content` is what the JavaScript
    /// side has, if it has the file.
    pub fn open_append(path: &str, content: Option<Vec<u8>>) -> (f: JsBackedFile)
        ensures
            opened_with(
                f,
                path@,
                match content {
                    Some(bytes) => bytes@,
                    None => Seq::empty(),
                },
                true,
                true,
            ),
    {
        let bytes = match content {
            Some(bytes) => bytes,
            None => Vec::new(),
        };
        assert(content is None ==> bytes@ =~= Seq::<u8>::empty());
        JsBackedFile::over_content(path, bytes, true, true)
    }

    /// Hands the whole buffer to the JavaScript side, if it waits to be
    /// written. An empty buffer makes an empty file.
    pub fn flush_to_js(&mut self) -> (call: Option<JsCall>)
        requires
            old(self).wf(),
        ensures
            final(self).wf(),
            call is Some <==> old(self).dirty,
            call is Some ==> writes_whole(call, old(self).path@, old(self).buffer@),
            *final(self) == (JsBackedFile { dirty: false, ..*old(self) }),
            forall|js: Seq<u8>|
                old(self).in_sync(js) ==> {
                    &&& file_step(
                        *old(self),
                        js,
                        Seq::empty(),
                        *final(self),
                        #[trigger] applied(js, call),
                    )
                    &&& applied(js, call) == old(self).content(js)
                },
    {
        if self.dirty {
            let content = copied(self.buffer.as_slice());
            self.dirty = false;
            Some(JsCall::WriteFile { path: self.path.clone(), content })
        } else {
            None
        }
    }

    /// Hands the file over to the JavaScript side once it has reached the
    /// threshold.
    pub fn maybe_spill(&mut self) -> (call: Option<JsCall>)
        requires
            old(self).wf(),
        ensures
            final(self).wf(),
            call is Some <==> !old(self).spilled && old(self).buffer@.len() >= SPILL_THRESHOLD,
            call is None ==> *final(self) == *old(self),
            call is Some ==> {
                &&& writes_whole(call, old(self).path@, old(self).buffer@)
                &&& final(self).buffer@.len() == 0
                &&& *final(self) == (JsBackedFile {
                    buffer: final(self).buffer,
                    spilled: true,
                    dirty: false,
                    js_size: old(self).buffer@.len() as usize,
                    ..*old(self)
                })
            },
            forall|js: Seq<u8>|
                old(self).in_sync(js) ==> file_step(
                    *old(self),
                    js,
                    Seq::empty(),
                    *final(self),
                    #[trigger] applied(js, call),
                ),
    {
        if !self.spilled && self.buffer.len() >= SPILL_THRESHOLD {
            let content = copied(self.buffer.as_slice());
            self.js_size = self.buffer.len();
            proof {
                vstd::arithmetic::div_mod::lemma_small_mod(
                    self.js_size as nat,
                    (usize::MAX + 1) as nat,
                );
            }
            self.buffer = Vec::new();
            self.spilled = true;
            self.dirty = false;
            Some(JsCall::WriteFile { path: self.path.clone(), content })
        } else {
            None
        }
    }

    /// Takes the bytes that the JavaScript side gave for the chunk at the
    /// current position: as many of them as `buf` has room for.
    pub fn accept_chunk(&mut self, reply: Option<Vec<u8>>, buf: &mut [u8]) -> (n: usize)
        requires
            old(self).wf(),
            old(self).spilled,
        ensures
            final(self).wf(),
            n == (match reply {
                Some(bytes) => if bytes@.len() < old(buf)@.len() {
                    bytes@.len()
                } else {
                    old(buf)@.len()
                },
                None => 0,
            }),
            final(buf)@ == filled(
                old(buf)@,
                match reply {
                    Some(bytes) => bytes@.take(n as int),
                    None => Seq::empty(),
                },
            ),
            *final(self) == (JsBackedFile {
                position: old(self).position.wrapping_add(n),
                ..*old(self)
            }),
    {
        match reply {
            Some(bytes) => {
                let n: usize = if bytes.len() < buf.len() {
                    bytes.len()
                } else {
                    buf.len()
                };
                fill(buf, bytes.as_slice(), 0, n);
                assert(bytes@.subrange(0, n as int) =~= bytes@.take(n as int));
                self.position = self.position.wrapping_add(n);
                n
            },
            None => {
                assert(buf@ =~= filled(buf@, Seq::empty()));
                0
            },
        }
    }

    /// Reads at the current position into `buf` and moves on. Of a file that
    /// has spilled, one chunk is asked of `read_chunk`; of a file in memory,
    /// none.
    pub fn read<W, C: Fn(W, &str, u32, u32) -> (W, Option<Vec<u8>>)>(
        &mut self,
        world: W,
        buf: &mut [u8],
        read_chunk: C,
    ) -> (r: (W, usize))
        requires
            old(self).wf(),
            forall|w: W, p: &str, offset: u32, len: u32| #[trigger]
                call_requires(read_chunk, (w, p, offset, len)),
        ensures
            final(self).wf(),
            r.1 <= old(buf)@.len(),
            *final(self) == (JsBackedFile {
                position: old(self).position.wrapping_add(r.1),
                ..*old(self)
            }),
            forall|js: Seq<u8>| #[trigger]
                old(self).in_sync(js) ==> file_step(*old(self), js, Seq::empty(), *final(self), js),
            !old(self).spilled ==> {
                let bytes = bytes_at(
                    old(self).buffer@,
                    old(self).position as int,
                    old(buf)@.len() as int,
                );
                &&& r.0 == world
                &&& r.1 == bytes.len()
                &&& final(buf)@ == filled(old(buf)@, bytes)
                &&& final(self).position == old(self).position + r.1
            },
            old(self).spilled ==> chunk_read(
                read_chunk,
                world,
                *old(self),
                old(buf)@,
                r.0,
                r.1,
                final(buf)@,
            ),
            forall|js: Seq<u8>|
                old(self).spilled && #[trigger] serves(read_chunk, old(self).path@, js)
                    && old(self).position <= u32::MAX && old(buf)@.len() <= u32::MAX ==> {
                    let bytes = bytes_at(
                        js,
                        old(self).position as int,
                        old(buf)@.len() as int,
                    );
                    r.1 == bytes.len() && final(buf)@ == filled(old(buf)@, bytes)
                },
    {
        if self.spilled {
            let offset: u32 = #[verifier::truncate]
            (self.position as u32);
            let len: u32 = #[verifier::truncate]
            (buf.len() as u32);
            let ghost before = buf@;
            let (after, reply) = read_chunk(world, self.path.as_str(), offset, len);
            assert(chunk_asked(read_chunk, world, self.path@, offset, len, after, reply));
            let n: usize = self.accept_chunk(reply, buf);
            assert(reply is None ==> buf@ =~= before);
            proof {
                let at = old(self).position as int;
                let room = before.len() as int;
                assert forall|js: Seq<u8>|
                    (#[trigger] serves(read_chunk, old(self).path@, js) && at <= u32::MAX && room
                        <= u32::MAX) implies {
                    let bytes = bytes_at(js, at, room);
                    n == bytes.len() && buf@ == filled(before, bytes)
                } by {
                    assert(chunk_of(reply, js, at, room));
                    match reply {
                        Some(bytes) => {
                            assert(bytes@.take(n as int) =~= bytes@);
                        },
                        None => {
                            assert(bytes_at(js, at, room) =~= Seq::<u8>::empty());
                        },
                    }
                }
                assert forall|js: Seq<u8>| #[trigger] old(self).in_sync(js) implies file_step(
                    *old(self),
                    js,
                    Seq::empty(),
                    *self,
                    js,
                ) by {
                    assert(js + Seq::<u8>::empty() =~= js);
                }
            }
            assert(chunk_read(read_chunk, world, *old(self), before, after, n, buf@));
            (after, n)
        } else {
            let remaining: usize = self.buffer.len() - self.position;
            let n: usize = if remaining < buf.len() {
                remaining
            } else {
                buf.len()
            };
            fill(buf, self.buffer.as_slice(), self.position, n);
            self.position = self.position + n;
            assert(self.buffer@ + Seq::<u8>::empty() =~= self.buffer@);
            (world, n)
        }
    }

    /// Adds the bytes at the end of the file. The result says how many were
    /// taken, which is all of them, and what has to be done on the JavaScript
    /// side.
    pub fn write(&mut self, buf: &[u8]) -> (r: Result<(usize, Option<JsCall>), IoError>)
        requires
            old(self).wf(),
        ensures
            final(self).wf(),
            match r {
                Err(e) => {
                    &&& !old(self).writable
                    &&& e.says(IoErrorKind::PermissionDenied, "read-only file"@)
                    &&& *final(self) == *old(self)
                },
                Ok((n, call)) => {
                    &&& old(self).writable
                    &&& n == buf@.len()
                    &&& file_written(*old(self), buf@, *final(self), call)
                    &&& forall|js: Seq<u8>|
                        old(self).in_sync(js) ==> file_step(
                            *old(self),
                            js,
                            buf@,
                            *final(self),
                            #[trigger] applied(js, call),
                        )
                },
            },
    {
        if !self.writable {
            return Err(IoError::new(IoErrorKind::PermissionDenied, "read-only file"));
        }
        if self.spilled {
            let chunk = copied(buf);
            self.js_size = self.js_size.wrapping_add(buf.len());
            let call = Some(JsCall::AppendChunk { path: self.path.clone(), chunk });
            proof {
                assert forall|js: Seq<u8>| old(self).in_sync(js) implies file_step(
                    *old(self),
                    js,
                    buf@,
                    *self,
                    #[trigger] applied(js, call),
                ) by {
                    lemma_machine_size_grows(js.len(), buf@.len() as usize);
                }
            }
            Ok((buf.len(), call))
        } else {
            append_bytes(&mut self.buffer, buf);
            self.dirty = true;
            let ghost middle = *self;
            let call = self.maybe_spill();
            proof {
                assert forall|js: Seq<u8>| old(self).in_sync(js) implies file_step(
                    *old(self),
                    js,
                    buf@,
                    *self,
                    #[trigger] applied(js, call),
                ) by {
                    assert(middle.in_sync(js));
                    assert(middle.content(js) + Seq::<u8>::empty() =~= middle.content(js));
                }
            }
            Ok((buf.len(), call))
        }
    }

    /// Hands over what waits to be written.
    pub fn flush(&mut self) -> (call: Option<JsCall>)
        requires
            old(self).wf(),
        ensures
            final(self).wf(),
            call is Some <==> old(self).dirty && !old(self).spilled,
            call is Some ==> writes_whole(call, old(self).path@, old(self).buffer@),
            *final(self) == (JsBackedFile { dirty: false, ..*old(self) }),
            forall|js: Seq<u8>|
                old(self).in_sync(js) ==> {
                    &&& file_step(
                        *old(self),
                        js,
                        Seq::empty(),
                        *final(self),
                        #[trigger] applied(js, call),
                    )
                    &&& applied(js, call) == old(self).content(js)
                },
    {
        if !self.spilled {
            self.flush_to_js()
        } else {
            proof {
                assert forall|js: Seq<u8>| #[trigger] applied(js, None::<JsCall>) == js by {}
                assert forall|js: Seq<u8>| js + Seq::<u8>::empty() == js by {
                    assert(js + Seq::<u8>::empty() =~= js);
                }
            }
            None
        }
    }

    /// Closes the file: what still waits to be written is handed over, so that
    /// the JavaScript side has everything that the file holds.
    pub fn close(self) -> (call: Option<JsCall>)
        requires
            self.wf(),
        ensures
            call is Some <==> self.dirty && self.writable && !self.spilled,
            call is Some ==> writes_whole(call, self.path@, self.buffer@),
            forall|js: Seq<u8>| self.in_sync(js) ==> #[trigger] applied(js, call) == self.content(js),
    {
        let mut file = self;
        if file.dirty && file.writable && !file.spilled {
            file.flush_to_js()
        } else {
            None
        }
    }
}

/// Whether a file can go from one state to the other when `written` is added to
/// it, while what the JavaScript side has of it goes from `js` to `js_after`.
pub open spec fn file_step(
    before: JsBackedFile,
    js: Seq<u8>,
    written: Seq<u8>,
    after: JsBackedFile,
    js_after: Seq<u8>,
) -> bool {
    &&& after.in_sync(js_after)
    &&& after.content(js_after) == before.content(js) + written
}

/// The pieces one after the other.
pub open spec fn all_bytes(pieces: Seq<Seq<u8>>) -> Seq<u8>
    decreases pieces.len(),
{
    if pieces.len() == 0 {
        Seq::empty()
    } else {
        all_bytes(pieces.drop_last()) + pieces.last()
    }
}

/// Whatever is written, read and flushed, and whether or not the file spills:
/// it holds what it held at first followed by what was written, in order. So
/// that is what the JavaScript side has once the file is closed.
pub proof fn lemma_file_keeps_what_is_written(
    files: Seq<JsBackedFile>,
    js: Seq<Seq<u8>>,
    written: Seq<Seq<u8>>,
)
    requires
        files.len() == written.len() + 1,
        js.len() == files.len(),
        files[0].in_sync(js[0]),
        forall|i: int|
            0 <= i < written.len() ==> file_step(
                files[i],
                js[i],
                #[trigger] written[i],
                files[i + 1],
                js[i + 1],
            ),
    ensures
        files.last().in_sync(js.last()),
        files.last().content(js.last()) == files[0].content(js[0]) + all_bytes(written),
    decreases written.len(),
{
    if written.len() == 0 {
        assert(files[0].content(js[0]) + all_bytes(written) =~= files[0].content(js[0]));
    } else {
        let n = written.len() - 1;
        let front = written.drop_last();
        assert forall|i: int| 0 <= i < front.len() implies file_step(
            files.drop_last()[i],
            js.drop_last()[i],
            #[trigger] front[i],
            files.drop_last()[i + 1],
            js.drop_last()[i + 1],
        ) by {
            assert(front[i] == written[i]);
        }
        lemma_file_keeps_what_is_written(files.drop_last(), js.drop_last(), front);
        assert(file_step(files[n], js[n], written[n], files[n + 1], js[n + 1]));
        assert(files.last().content(js.last()) =~= files[0].content(js[0]) + all_bytes(written));
    }
}

/// What a file is after `k` writes when it was opened empty: in memory as long
/// as all of them are below the threshold, and spilled from there on.
proof fn lemma_after_writes(
    files: Seq<JsBackedFile>,
    written: Seq<Seq<u8>>,
    calls: Seq<Option<JsCall>>,
    path: Seq<char>,
    k: int,
)
    requires
        files.len() == written.len() + 1,
        calls.len() == written.len(),
        opened_empty(files[0], path),
        forall|i: int|
            0 <= i < written.len() ==> file_written(
                files[i],
                #[trigger] written[i],
                files[i + 1],
                calls[i],
            ),
        0 <= k <= written.len(),
    ensures
        files[k].path@ == path,
        files[k].spilled <==> all_bytes(written.take(k)).len() >= SPILL_THRESHOLD,
        !files[k].spilled ==> files[k].buffer@ == all_bytes(written.take(k)),
    decreases k,
{
    if k == 0 {
        assert(all_bytes(written.take(0)) =~= Seq::empty());
        assert(files[0].buffer@ =~= all_bytes(written.take(0)));
    } else {
        lemma_after_writes(files, written, calls, path, k - 1);
        assert(written.take(k).drop_last() =~= written.take(k - 1));
        assert(file_written(files[k - 1], written[k - 1], files[k], calls[k - 1]));
    }
}

/// Of a file that is opened empty and then written to, nothing reaches the
/// JavaScript side while what was written is below the threshold. The write
/// that reaches the threshold hands over everything in one call, and every
/// later one hands over its own bytes as a chunk.
pub proof fn lemma_writes_reach_js(
    files: Seq<JsBackedFile>,
    written: Seq<Seq<u8>>,
    calls: Seq<Option<JsCall>>,
    path: Seq<char>,
    k: int,
)
    requires
        files.len() == written.len() + 1,
        calls.len() == written.len(),
        opened_empty(files[0], path),
        forall|i: int|
            0 <= i < written.len() ==> file_written(
                files[i],
                #[trigger] written[i],
                files[i + 1],
                calls[i],
            ),
        0 <= k < written.len(),
    ensures
        handed_over(path, all_bytes(written.take(k)), written[k], calls[k]),
{
    lemma_after_writes(files, written, calls, path, k);
    assert(file_written(files[k], written[k], files[k + 1], calls[k]));
}

/// Whether a read of `len` bytes at `position` gives `bytes` and moves on to
/// `next`.
pub open spec fn read_step(
    content: Seq<u8>,
    position: int,
    len: int,
    bytes: Seq<u8>,
    next: int,
) -> bool {
    &&& len >= 0
    &&& bytes == bytes_at(content, position, len)
    &&& next == position + bytes.len()
}

/// Reads that follow each other give the content without gaps or repetitions:
/// together they are what lies between the first position and the last.
pub proof fn lemma_reads_follow_each_other(
    content: Seq<u8>,
    positions: Seq<int>,
    lens: Seq<int>,
    pieces: Seq<Seq<u8>>,
)
    requires
        positions.len() == pieces.len() + 1,
        lens.len() == pieces.len(),
        0 <= positions[0] <= content.len(),
        forall|i: int|
            0 <= i < pieces.len() ==> read_step(
                content,
                positions[i],
                lens[i],
                #[trigger] pieces[i],
                positions[i + 1],
            ),
    ensures
        positions[0] <= positions.last() <= content.len(),
        all_bytes(pieces) == content.subrange(positions[0], positions.last()),
    decreases pieces.len(),
{
    if pieces.len() == 0 {
        assert(all_bytes(pieces) =~= content.subrange(positions[0], positions.last()));
    } else {
        let n = pieces.len() - 1;
        let front = pieces.drop_last();
        assert forall|i: int| 0 <= i < front.len() implies read_step(
            content,
            positions.drop_last()[i],
            lens.drop_last()[i],
            #[trigger] front[i],
            positions.drop_last()[i + 1],
        ) by {
            assert(front[i] == pieces[i]);
        }
        lemma_reads_follow_each_other(content, positions.drop_last(), lens.drop_last(), front);
        assert(read_step(content, positions[n], lens[n], pieces[n], positions[n + 1]));
        assert(all_bytes(pieces) =~= content.subrange(positions[0], positions.last()));
    }
}

/// A copy of the bytes.
fn copied(bytes: &[u8]) -> (r: Vec<u8>)
    ensures
        r@ == bytes@,
{
    let mut r: Vec<u8> = Vec::new();
    append_bytes(&mut r, bytes);
    assert(r@ =~= bytes@);
    r
}

/// Adds the bytes at the end of the vector.
pub(crate) fn append_bytes(v: &mut Vec<u8>, bytes: &[u8])
    ensures
        final(v)@ == old(v)@ + bytes@,
{
    let ghost before = v@;
    v.extend_from_slice(bytes);
    assert(v@ =~= before + bytes@);
}

/// Writes `n` bytes of `source`, from `from` on, over the beginning of `buf`.
pub(crate) fn fill(buf: &mut [u8], source: &[u8], from: usize, n: usize)
    requires
        n <= old(buf)@.len(),
        from + n <= source@.len(),
    ensures
        final(buf)@ == filled(old(buf)@, source@.subrange(from as int, from + n)),
{
    let ghost before = buf@;
    let end: usize = source.len();
    let mut i: usize = 0;
    assert(buf@ =~= filled(before, source@.subrange(from as int, from as int)));
    while i < n
        invariant
            i <= n,
            n <= before.len(),
            from + n <= source@.len(),
            end == source@.len(),
            buf@ == filled(before, source@.subrange(from as int, from + i)),
        decreases n - i,
    {
        buf[i] = source[from + i];
        i = i + 1;
        assert(buf@ =~= filled(before, source@.subrange(from as int, from + i)));
    }
}

/// Whether `made` can be what is left of `world` when the directory of `path`
/// was created in it. A path that lies in nothing creates nothing.
pub open spec fn parent_made<W, M: Fn(W, &str) -> W>(
    mkdir: M,
    world: W,
    path: Seq<char>,
    made: W,
) -> bool {
    match parent(path) {
        Some(dir) => exists|p: &str| p@ == dir && #[trigger] call_ensures(mkdir, (world, p), made),
        None => made == world,
    }
}

/// Creates the directory of `path`.
fn make_parent<W, M: Fn(W, &str) -> W>(mkdir: &M, world: W, path: &str) -> (made: W)
    requires
        forall|w: W, p: &str| #[trigger] call_requires(*mkdir, (w, p)),
    ensures
        parent_made(*mkdir, world, path@, made),
{
    match parent_of(path) {
        Some(dir) => mkdir(world, dir.as_str()),
        None => world,
    }
}

/// Opens a file of the JavaScript side. Of the flags, `append` counts first,
/// then `write`, which writes the file from the beginning, then `create`, which
/// keeps a file that exists and makes an empty one otherwise, then `read`;
/// without any of them nothing is opened. Except for `write`, the file is read
/// first. A file that is opened at its end, written from the beginning or made
/// gets its directory created.
pub fn open_file<W, R: Fn(&W, &str) -> Option<Vec<u8>>, M: Fn(W, &str) -> W>(
    world: W,
    read_file: R,
    mkdir: M,
    path: &str,
    read: bool,
    write: bool,
    create: bool,
    append: bool,
) -> (r: (W, Result<JsBackedFile, IoError>))
    requires
        forall|w: W, p: &str| #[trigger] call_requires(read_file, (&w, p)),
        forall|w: W, p: &str| #[trigger] call_requires(mkdir, (w, p)),
    ensures
        append ==> exists|p: &str, content: Option<Vec<u8>>|
            {
                &&& p@ == path@
                &&& #[trigger] call_ensures(read_file, (&world, p), content)
                &&& parent_made(mkdir, world, path@, r.0)
                &&& r.1 matches Ok(f) && opened_with(
                    f,
                    path@,
                    match content {
                        Some(bytes) => bytes@,
                        None => Seq::empty(),
                    },
                    true,
                    true,
                )
            },
        !append && write ==> {
            &&& parent_made(mkdir, world, path@, r.0)
            &&& r.1 matches Ok(f) && opened_empty(f, path@)
        },
        !append && !write && create ==> exists|p: &str, content: Option<Vec<u8>>|
            {
                &&& p@ == path@
                &&& #[trigger] call_ensures(read_file, (&world, p), content)
                &&& r.1 matches Ok(f) && match content {
                    Some(bytes) => r.0 == world && opened_with(f, path@, bytes@, true, false),
                    None => parent_made(mkdir, world, path@, r.0) && opened_empty(f, path@),
                }
            },
        !append && !write && !create && read ==> {
            &&& r.0 == world
            &&& exists|p: &str, content: Option<Vec<u8>>|
                {
                    &&& p@ == path@
                    &&& #[trigger] call_ensures(read_file, (&world, p), content)
                    &&& match (r.1, content) {
                        (Ok(f), Some(bytes)) => opened_with(f, path@, bytes@, false, false),
                        (Err(e), None) => e.says(
                            IoErrorKind::NotFound,
                            "file not found: "@ + path@,
                        ),
                        _ => false,
                    }
                }
        },
        !append && !write && !create && !read ==> {
            &&& r.0 == world
            &&& r.1 matches Err(e) && e.says(IoErrorKind::InvalidInput, "no file mode specified"@)
        },
{
    if append {
        let content = read_file(&world, path);
        let made = make_parent(&mkdir, world, path);
        (made, Ok(JsBackedFile::open_append(path, content)))
    } else if write {
        let made = make_parent(&mkdir, world, path);
        (made, Ok(JsBackedFile::open_write(path)))
    } else if create {
        let content = read_file(&world, path);
        let after = if content.is_some() {
            world
        } else {
            make_parent(&mkdir, world, path)
        };
        (after, Ok(JsBackedFile::open_create(path, content)))
    } else if read {
        let content = read_file(&world, path);
        (world, JsBackedFile::open_read(path, content))
    } else {
        (world, Err(IoError::new(IoErrorKind::InvalidInput, "no file mode specified")))
    }
}

} // verus!
