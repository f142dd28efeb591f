//! The standard streams of a shell that runs in a page.

use vstd::prelude::*;
use vstd::slice::*;
use vstd::string::*;
#[allow(unused_imports)]
use vstd::utf8::{decode_utf8, valid_utf8};

use crate::wasm_vfs::append_bytes;

verus! {

/// A stream that keeps what is written to it.
pub struct InMemoryStream {
    pub buf: Vec<u8>,
}

impl InMemoryStream {
    /// A stream that keeps nothing yet.
    pub fn new() -> (s: InMemoryStream)
        ensures
            s.buf@.len() == 0,
    {
        InMemoryStream { buf: Vec::new() }
    }

    /// Gives what was written since the stream was made or last emptied, and
    /// empties it.
    pub fn take_contents(&mut self) -> (bytes: Vec<u8>)
        ensures
            bytes@ == old(self).buf@,
            final(self).buf@.len() == 0,
    {
        let mut bytes: Vec<u8> = Vec::new();
        bytes.append(&mut self.buf);
        assert(bytes@ =~= old(self).buf@);
        bytes
    }

    /// A read finds the end at once: the stream is only written to.
    pub fn read(&self, buf: &mut [u8]) -> (n: usize)
        ensures
            n == 0,
            final(buf)@ == old(buf)@,
    {
        0
    }

    /// Keeps the bytes behind those that are there.
    pub fn write(&mut self, bytes: &[u8]) -> (n: usize)
        ensures
            n == bytes@.len(),
            final(self).buf@ == old(self).buf@ + bytes@,
    {
        append_bytes(&mut self.buf, bytes);
        bytes.len()
    }
}

/// The standard input of a shell without input.
pub struct EmptyInputStream;

impl EmptyInputStream {
    /// A read finds the end at once.
    pub fn read(&self, buf: &mut [u8]) -> (n: usize)
        ensures
            n == 0,
            final(buf)@ == old(buf)@,
    {
        0
    }

    /// What is written is dropped, and counts as written.
    pub fn write(&self, bytes: &[u8]) -> (n: usize)
        ensures
            n == bytes@.len(),
    {
        bytes.len()
    }
}

/// What `String::from_utf8_lossy` makes of the bytes.
pub uninterp spec fn lossy_text(bytes: Seq<u8>) -> Seq<char>;

/// Calls `String::from_utf8_lossy`. The result depends on the bytes alone and
/// is named `lossy_text`; valid UTF-8 is decoded as it is.
#[verifier::external_body]
pub(crate) fn from_utf8_lossy(bytes: &[u8]) -> (s: String)
    ensures
        s@ == lossy_text(bytes@),
        valid_utf8(bytes@) ==> s@ == decode_utf8(bytes@),
{
    String::from_utf8_lossy(bytes).into_owned()
}

} // verus!
