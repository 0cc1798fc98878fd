use vstd::prelude::*;

use crate::bytes::append_bytes;

verus! {

/// The abstract state of an output handle.
pub struct OutputView {
    /// The name the handle writes to; empty for standard output.
    pub name: Seq<u8>,
    /// Whether the handle writes to standard output.
    pub to_stdout: bool,
    /// Bytes accepted but not yet handed to the backend.
    pub pending: Seq<u8>,
    /// Whether the handle was opened as a compressed stream.
    pub compressed: bool,
}

/// An open output stream. Writes are buffered until a flush hands them on.
pub struct OutputHandle {
    name: Vec<u8>,
    to_stdout: bool,
    pending: Vec<u8>,
    compressed: bool,
}

impl View for OutputHandle {
    type V = OutputView;

    closed spec fn view(&self) -> OutputView {
        OutputView {
            name: self.name@,
            to_stdout: self.to_stdout,
            pending: self.pending@,
            compressed: self.compressed,
        }
    }
}

impl OutputHandle {
    /// A handle that writes to the named file.
    pub fn new_named(name: Vec<u8>, compressed: bool) -> (r: OutputHandle)
        ensures
            r@ == (OutputView { name: name@, to_stdout: false, pending: Seq::empty(), compressed }),
    {
        OutputHandle { name, to_stdout: false, pending: Vec::new(), compressed }
    }

    /// A handle that writes to standard output.
    pub fn new_stdout() -> (r: OutputHandle)
        ensures
            r@ == (OutputView { name: Seq::empty(), to_stdout: true, pending: Seq::empty(), compressed: false }),
    {
        OutputHandle { name: Vec::new(), to_stdout: true, pending: Vec::new(), compressed: false }
    }

    pub fn name(&self) -> (r: &Vec<u8>)
        ensures
            r@ == self@.name,
    {
        &self.name
    }

    pub fn is_stdout(&self) -> (r: bool)
        ensures
            r == self@.to_stdout,
    {
        self.to_stdout
    }

    pub fn is_compressed(&self) -> (r: bool)
        ensures
            r == self@.compressed,
    {
        self.compressed
    }

    /// Accepts every byte of `bytes`.
    pub fn write(&mut self, bytes: &[u8])
        ensures
            final(self)@ == (OutputView { pending: old(self)@.pending + bytes@, ..old(self)@ }),
    {
        append_bytes(&mut self.pending, bytes);
    }

    /// Hands out the bytes accepted since the last flush, leaving none.
    pub fn take_pending(&mut self) -> (r: Vec<u8>)
        ensures
            r@ == old(self)@.pending,
            final(self)@ == (OutputView { pending: Seq::empty(), ..old(self)@ }),
    {
        let mut out: Vec<u8> = Vec::new();
        std::mem::swap(&mut out, &mut self.pending);
        out
    }
}

} // verus!
