use vstd::prelude::*;

use crate::error::{IoError, SeekFrom};
use crate::format::FileFormat;
use crate::input::{getc_step, read_step, seek_step, ungetc_step, InputHandle, InputView};
use crate::output::{OutputHandle, OutputView};
use crate::store::MemoryStore;

verus! {

/// The operation a warning is about.
#[derive(Clone, Copy, Debug, PartialEq, Eq, Structural)]
pub enum Operation {
    GetSize,
    Seek,
    Getc,
    Ungetc,
    Read,
    Write,
    Flush,
    Close,
}

/// A non-fatal failure reported to the status sink: the operation, the
/// number of bytes it involved and the error.
#[derive(Clone, Copy, Debug, PartialEq, Eq, Structural)]
pub struct Warning {
    pub op: Operation,
    pub len: usize,
    pub error: IoError,
}

/// Names an input handle of an engine: the slot it was opened in. Slots are
/// never reused, so an identity outlives its handle only as a stale one.
#[derive(Clone, Copy, Debug, PartialEq, Eq, Structural)]
pub struct InputId {
    pub index: usize,
}

/// Names an output handle of an engine, as `InputId` does for input.
#[derive(Clone, Copy, Debug, PartialEq, Eq, Structural)]
pub struct OutputId {
    pub index: usize,
}

/// The abstract state of an engine.
pub struct EngineView {
    /// The files of the backend, by name.
    pub files: Map<Seq<u8>, Seq<u8>>,
    /// The open input handles, by slot.
    pub inputs: Map<nat, InputView>,
    /// The open output handles, by slot.
    pub outputs: Map<nat, OutputView>,
    /// How many slots were ever handed out; input and output handles share
    /// them, so no slot ever names one of each.
    pub slots: nat,
    /// What was flushed to standard output and not yet taken.
    pub stdout: Seq<u8>,
    /// The warnings reported and not yet taken.
    pub warnings: Seq<Warning>,
}

impl EngineView {
    pub open spec fn with_input(self, k: nat, v: InputView) -> EngineView {
        EngineView { inputs: self.inputs.insert(k, v), ..self }
    }

    pub open spec fn with_output(self, k: nat, v: OutputView) -> EngineView {
        EngineView { outputs: self.outputs.insert(k, v), ..self }
    }

    /// The state after the pending bytes of output `k` were handed on: to
    /// standard output, or appended to the file it names.
    pub open spec fn flushed(self, k: nat) -> EngineView {
        let o = self.outputs[k];
        let before = if self.files.contains_key(o.name) { self.files[o.name] } else { Seq::empty() };
        EngineView {
            outputs: self.outputs.insert(k, OutputView { pending: Seq::empty(), ..o }),
            stdout: if o.to_stdout { self.stdout + o.pending } else { self.stdout },
            files: if o.to_stdout { self.files } else { self.files.insert(o.name, before + o.pending) },
            ..self
        }
    }
}

/// The state of the files after output `k` was flushed and closed.
pub open spec fn closed_output(v: EngineView, k: nat) -> EngineView {
    let f = v.flushed(k);
    EngineView { outputs: f.outputs.remove(k), ..f }
}

/// The state after every output slot below `n` that is open was flushed
/// and closed, in slot order.
pub open spec fn outputs_closed_below(v: EngineView, n: nat) -> EngineView
    decreases n,
{
    if n == 0 {
        v
    } else {
        let w = outputs_closed_below(v, (n - 1) as nat);
        if w.outputs.contains_key((n - 1) as nat) {
            closed_output(w, (n - 1) as nat)
        } else {
            w
        }
    }
}

/// What a slot of an engine holds.
enum Slot {
    Free,
    Input(InputHandle),
    Output(OutputHandle),
}

/// Owns every open handle and the backend they read from and write to.
pub struct Engine {
    store: MemoryStore,
    slots: Vec<Slot>,
    stdout: Vec<u8>,
    warnings: Vec<Warning>,
}

spec fn input_map(s: Seq<Slot>) -> Map<nat, InputView> {
    Map::new(|k: nat| k < s.len() && s[k as int] is Input, |k: nat| s[k as int]->Input_0@)
}

spec fn output_map(s: Seq<Slot>) -> Map<nat, OutputView> {
    Map::new(|k: nat| k < s.len() && s[k as int] is Output, |k: nat| s[k as int]->Output_0@)
}

impl View for Engine {
    type V = EngineView;

    closed spec fn view(&self) -> EngineView {
        EngineView {
            files: self.store@,
            inputs: input_map(self.slots@),
            outputs: output_map(self.slots@),
            slots: self.slots@.len(),
            stdout: self.stdout@,
            warnings: self.warnings@,
        }
    }
}

impl Engine {
    pub closed spec fn wf(&self) -> bool {
        self.store.wf()
    }

    /// Every open handle lies in a slot that was handed out, no slot holds
    /// an input and an output at once, no more slots are handed out than a
    /// `usize` can count, and every input position is a `u64`.
    pub proof fn lemma_slots_bounded(&self)
        ensures
            forall|k: nat| #[trigger] self@.inputs.contains_key(k) ==> k < self@.slots,
            forall|k: nat| #[trigger] self@.outputs.contains_key(k) ==> k < self@.slots,
            forall|k: nat| #[trigger] self@.inputs.contains_key(k) ==> !self@.outputs.contains_key(k),
            forall|k: nat| #[trigger] self@.inputs.contains_key(k)
                ==> 0 <= self@.inputs[k].pos <= u64::MAX,
            self@.slots <= usize::MAX,
    {
        assert(self.slots@.len() == self.slots.len());
        assert forall|k: nat| #[trigger] self@.inputs.contains_key(k)
            implies 0 <= self@.inputs[k].pos <= u64::MAX by {
            self.slots@[k as int]->Input_0.lemma_pos_bounded();
        }
    }

    /// An engine with no files and no handles.
    pub fn new() -> (r: Engine)
        ensures
            r.wf(),
            r@.files == Map::<Seq<u8>, Seq<u8>>::empty(),
            r@.inputs == Map::<nat, InputView>::empty(),
                        r@.outputs == Map::<nat, OutputView>::empty(),
            r@.slots == 0,
            r@.stdout == Seq::<u8>::empty(),
            r@.warnings == Seq::<Warning>::empty(),
    {
        let r = Engine {
            store: MemoryStore::new(),
            slots: Vec::new(),
            stdout: Vec::new(),
            warnings: Vec::new(),
        };
        proof {
            assert(input_map(r.slots@) =~= Map::<nat, InputView>::empty());
            assert(output_map(r.slots@) =~= Map::<nat, OutputView>::empty());
        }
        r
    }

    /// Stores `data` under `name` in the backend, replacing what was there.
    pub fn add_file(&mut self, name: &[u8], data: Vec<u8>)
        requires
            old(self).wf(),
        ensures
            final(self).wf(),
            final(self)@ == (EngineView { files: old(self)@.files.insert(name@, data@), ..old(self)@ }),
    {
        self.store.put(name, data);
    }

    /// The contents the backend holds under `name`, if any.
    pub fn file(&self, name: &[u8]) -> (r: Option<Vec<u8>>)
        requires
            self.wf(),
        ensures
            r is Some <==> self@.files.contains_key(name@),
            r matches Some(d) ==> d@ == self@.files[name@],
    {
        self.store.get(name)
    }

    /// Reports a warning to the status sink.
    pub fn warn(&mut self, w: Warning)
        ensures
            final(self).wf() == old(self).wf(),
            final(self)@ == (EngineView { warnings: old(self)@.warnings.push(w), ..old(self)@ }),
    {
        self.warnings.push(w);
    }

    /// The warnings reported so far and not yet taken.
    pub fn warnings(&self) -> (r: &Vec<Warning>)
        ensures
            r@ == self@.warnings,
    {
        &self.warnings
    }

    /// Hands out the warnings reported so far, leaving none.
    pub fn take_warnings(&mut self) -> (r: Vec<Warning>)
        ensures
            final(self).wf() == old(self).wf(),
            r@ == old(self)@.warnings,
            final(self)@ == (EngineView { warnings: Seq::empty(), ..old(self)@ }),
    {
        let mut out: Vec<Warning> = Vec::new();
        std::mem::swap(&mut out, &mut self.warnings);
        out
    }

    /// Hands out what was flushed to standard output, leaving none.
    pub fn take_stdout(&mut self) -> (r: Vec<u8>)
        ensures
            final(self).wf() == old(self).wf(),
            r@ == old(self)@.stdout,
            final(self)@ == (EngineView { stdout: Seq::empty(), ..old(self)@ }),
    {
        let mut out: Vec<u8> = Vec::new();
        std::mem::swap(&mut out, &mut self.stdout);
        out
    }

    fn input_live(&self, id: InputId) -> (r: bool)
        ensures
            r == self@.inputs.contains_key(id.index as nat),
    {
        id.index < self.slots.len() && match &self.slots[id.index] {
            Slot::Input(_) => true,
            _ => false,
        }
    }

    fn output_live(&self, id: OutputId) -> (r: bool)
        ensures
            r == self@.outputs.contains_key(id.index as nat),
    {
        id.index < self.slots.len() && match &self.slots[id.index] {
            Slot::Output(_) => true,
            _ => false,
        }
    }

    fn take_input(&mut self, id: InputId) -> (h: InputHandle)
        requires
            old(self)@.inputs.contains_key(id.index as nat),
        ensures
            final(self).wf() == old(self).wf(),
            h@ == old(self)@.inputs[id.index as nat],
            final(self)@ == (EngineView { inputs: old(self)@.inputs.remove(id.index as nat), ..old(self)@ }),
            final(self).slots@[id.index as int] is Free,
    {
        let mut slot = Slot::Free;
        self.slots.set_and_swap(id.index, &mut slot);
        proof {
            assert(input_map(self.slots@) =~= input_map(old(self).slots@).remove(id.index as nat));
            assert(output_map(self.slots@) =~= output_map(old(self).slots@));
        }
        let taken = match slot {
            Slot::Input(h) => Some(h),
            _ => None,
        };
        taken.unwrap()
    }

    fn put_input(&mut self, id: InputId, h: InputHandle)
        requires
            id.index < old(self).slots@.len(),
            old(self).slots@[id.index as int] is Free,
        ensures
            final(self).wf() == old(self).wf(),
            final(self)@ == old(self)@.with_input(id.index as nat, h@),
    {
        let ghost hv = h@;
        self.slots.set(id.index, Slot::Input(h));
        proof {
            assert(input_map(self.slots@) =~= input_map(old(self).slots@).insert(id.index as nat, hv));
            assert(output_map(self.slots@) =~= output_map(old(self).slots@));
        }
    }

    fn take_output(&mut self, id: OutputId) -> (h: OutputHandle)
        requires
            old(self)@.outputs.contains_key(id.index as nat),
        ensures
            final(self).wf() == old(self).wf(),
            h@ == old(self)@.outputs[id.index as nat],
            final(self)@ == (EngineView { outputs: old(self)@.outputs.remove(id.index as nat), ..old(self)@ }),
            final(self).slots@[id.index as int] is Free,
    {
        let mut slot = Slot::Free;
        self.slots.set_and_swap(id.index, &mut slot);
        proof {
            assert(output_map(self.slots@) =~= output_map(old(self).slots@).remove(id.index as nat));
            assert(input_map(self.slots@) =~= input_map(old(self).slots@));
        }
        let taken = match slot {
            Slot::Output(h) => Some(h),
            _ => None,
        };
        taken.unwrap()
    }

    fn put_output(&mut self, id: OutputId, h: OutputHandle)
        requires
            id.index < old(self).slots@.len(),
            old(self).slots@[id.index as int] is Free,
        ensures
            final(self).wf() == old(self).wf(),
            final(self)@ == old(self)@.with_output(id.index as nat, h@),
    {
        let ghost hv = h@;
        self.slots.set(id.index, Slot::Output(h));
        proof {
            assert(output_map(self.slots@) =~= output_map(old(self).slots@).insert(id.index as nat, hv));
            assert(input_map(self.slots@) =~= input_map(old(self).slots@));
        }
    }
}

impl Engine {
    /// Opens the file the backend holds under `name` for reading, in a new
    /// slot; `None` when the backend holds no such file.
    pub fn input_open(&mut self, name: &[u8], format: FileFormat, compressed: bool) -> (r: Option<InputId>)
        requires
            old(self).wf(),
        ensures
            final(self).wf(),
            old(self)@.files.contains_key(name@) ==> r == Some(InputId { index: old(self)@.slots as usize })
                && final(self)@ == (EngineView {
                    slots: old(self)@.slots + 1,
                    ..old(self)@.with_input(old(self)@.slots, InputView {
                        data: old(self)@.files[name@],
                        pos: 0,
                        pushback: None,
                        at_eof: false,
                        format,
                        compressed,
                    })
                }),
            !old(self)@.files.contains_key(name@) ==> r is None && final(self)@ == old(self)@,
    {
        match self.store.get(name) {
            Some(data) => {
                let index = self.slots.len();
                let h = InputHandle::new(data, format, compressed);
                let ghost hv = h@;
                self.slots.push(Slot::Input(h));
                proof {
                    assert(input_map(self.slots@) =~= input_map(old(self).slots@).insert(index as nat, hv));
                    assert(output_map(self.slots@) =~= output_map(old(self).slots@));
                }
                Some(InputId { index })
            },
            None => None,
        }
    }

    /// The size of the stream of input `id`.
    pub fn input_get_size(&self, id: InputId) -> (r: Result<usize, IoError>)
        ensures
            self@.inputs.contains_key(id.index as nat) ==> r is Ok && r.unwrap() == self@.inputs[id.index as nat].data.len(),
            !self@.inputs.contains_key(id.index as nat) ==> r == Err::<usize, IoError>(IoError::StaleHandle),
    {
        if !self.input_live(id) {
            return Err(IoError::StaleHandle);
        }
        match &self.slots[id.index] {
            Slot::Input(h) => Ok(h.get_size()),
            _ => Err(IoError::StaleHandle),
        }
    }

    pub fn input_seek(&mut self, id: InputId, from: SeekFrom) -> (r: Result<u64, IoError>)
        requires
            old(self).wf(),
        ensures
            final(self).wf(),
            old(self)@.inputs.contains_key(id.index as nat) ==> ({
                let step = seek_step(old(self)@.inputs[id.index as nat], from);
                r == step.1 && final(self)@ == old(self)@.with_input(id.index as nat, step.0)
            }),
            !old(self)@.inputs.contains_key(id.index as nat) ==> r == Err::<u64, IoError>(IoError::StaleHandle)
                && final(self)@ == old(self)@,
    {
        if !self.input_live(id) {
            return Err(IoError::StaleHandle);
        }
        let mut h = self.take_input(id);
        let r = h.seek(from);
        self.put_input(id, h);
        proof {
            assert(input_map(self.slots@) =~= old(self)@.inputs.insert(id.index as nat, seek_step(old(self)@.inputs[id.index as nat], from).0));
        }
        r
    }

    pub fn input_getc(&mut self, id: InputId) -> (r: Result<u8, IoError>)
        requires
            old(self).wf(),
        ensures
            final(self).wf(),
            old(self)@.inputs.contains_key(id.index as nat) ==> ({
                let step = getc_step(old(self)@.inputs[id.index as nat]);
                r == step.1 && final(self)@ == old(self)@.with_input(id.index as nat, step.0)
            }),
            !old(self)@.inputs.contains_key(id.index as nat) ==> r == Err::<u8, IoError>(IoError::StaleHandle)
                && final(self)@ == old(self)@,
    {
        if !self.input_live(id) {
            return Err(IoError::StaleHandle);
        }
        let mut h = self.take_input(id);
        let r = h.getc();
        self.put_input(id, h);
        proof {
            assert(input_map(self.slots@) =~= old(self)@.inputs.insert(id.index as nat, getc_step(old(self)@.inputs[id.index as nat]).0));
        }
        r
    }

    pub fn input_ungetc(&mut self, id: InputId, b: u8) -> (r: Result<(), IoError>)
        requires
            old(self).wf(),
        ensures
            final(self).wf(),
            old(self)@.inputs.contains_key(id.index as nat) ==> ({
                let step = ungetc_step(old(self)@.inputs[id.index as nat], b);
                r == step.1 && final(self)@ == old(self)@.with_input(id.index as nat, step.0)
            }),
            !old(self)@.inputs.contains_key(id.index as nat) ==> r == Err::<(), IoError>(IoError::StaleHandle)
                && final(self)@ == old(self)@,
    {
        if !self.input_live(id) {
            return Err(IoError::StaleHandle);
        }
        let mut h = self.take_input(id);
        let r = h.ungetc(b);
        self.put_input(id, h);
        proof {
            assert(input_map(self.slots@) =~= old(self)@.inputs.insert(id.index as nat, ungetc_step(old(self)@.inputs[id.index as nat], b).0));
        }
        r
    }

    /// Fills all of `buf` from input `id`, or fails; after a failure the
    /// contents of `buf` are unspecified.
    pub fn input_read(&mut self, id: InputId, buf: &mut Vec<u8>) -> (r: Result<(), IoError>)
        requires
            old(self).wf(),
        ensures
            final(self).wf(),
            final(buf)@.len() == old(buf)@.len(),
            old(self)@.inputs.contains_key(id.index as nat) ==> ({
                let step = read_step(old(self)@.inputs[id.index as nat], old(buf)@.len());
                &&& final(self)@ == old(self)@.with_input(id.index as nat, step.0)
                &&& (r is Ok <==> step.1 is Ok)
                &&& r is Ok ==> step.1 == Ok::<Seq<u8>, IoError>(final(buf)@)
                &&& r is Err ==> r == Err::<(), IoError>(IoError::UnexpectedEof)
            }),
            !old(self)@.inputs.contains_key(id.index as nat) ==> r == Err::<(), IoError>(IoError::StaleHandle)
                && final(self)@ == old(self)@,
    {
        if !self.input_live(id) {
            return Err(IoError::StaleHandle);
        }
        let mut h = self.take_input(id);
        let r = h.read(buf);
        self.put_input(id, h);
        proof {
            assert(input_map(self.slots@) =~= old(self)@.inputs.insert(id.index as nat, read_step(old(self)@.inputs[id.index as nat], old(buf)@.len()).0));
        }
        r
    }

    /// Closes input `id`, releasing its stream.
    pub fn input_close(&mut self, id: InputId) -> (r: Result<(), IoError>)
        requires
            old(self).wf(),
        ensures
            final(self).wf(),
            old(self)@.inputs.contains_key(id.index as nat) ==> r is Ok
                && final(self)@ == (EngineView { inputs: old(self)@.inputs.remove(id.index as nat), ..old(self)@ }),
            !old(self)@.inputs.contains_key(id.index as nat) ==> r == Err::<(), IoError>(IoError::StaleHandle)
                && final(self)@ == old(self)@,
    {
        if !self.input_live(id) {
            return Err(IoError::StaleHandle);
        }
        let _h = self.take_input(id);
        Ok(())
    }

    fn push_output(&mut self, h: OutputHandle) -> (r: OutputId)
        requires
            old(self).wf(),
        ensures
            final(self).wf(),
            r.index == old(self)@.slots,
            final(self)@ == (EngineView {
                slots: old(self)@.slots + 1,
                ..old(self)@.with_output(old(self)@.slots, h@)
            }),
    {
        let index = self.slots.len();
        let ghost hv = h@;
        self.slots.push(Slot::Output(h));
        proof {
            assert(output_map(self.slots@) =~= output_map(old(self).slots@).insert(index as nat, hv));
            assert(input_map(self.slots@) =~= input_map(old(self).slots@));
        }
        OutputId { index }
    }

    /// Opens `name` for writing in a new slot; the backend's file under that
    /// name is created, or emptied if it exists.
    pub fn output_open(&mut self, name: &[u8], compressed: bool) -> (r: OutputId)
        requires
            old(self).wf(),
        ensures
            final(self).wf(),
            r.index == old(self)@.slots,
            final(self)@ == (EngineView {
                files: old(self)@.files.insert(name@, Seq::empty()),
                slots: old(self)@.slots + 1,
                ..old(self)@.with_output(old(self)@.slots, OutputView {
                    name: name@,
                    to_stdout: false,
                    pending: Seq::empty(),
                    compressed,
                })
            }),
    {
        self.store.put(name, Vec::new());
        let h = OutputHandle::new_named(crate::bytes::copy_bytes(name), compressed);
        self.push_output(h)
    }

    /// Opens standard output for writing in a new slot.
    pub fn output_open_stdout(&mut self) -> (r: OutputId)
        requires
            old(self).wf(),
        ensures
            final(self).wf(),
            r.index == old(self)@.slots,
            final(self)@ == (EngineView {
                slots: old(self)@.slots + 1,
                ..old(self)@.with_output(old(self)@.slots, OutputView {
                    name: Seq::empty(),
                    to_stdout: true,
                    pending: Seq::empty(),
                    compressed: false,
                })
            }),
    {
        let h = OutputHandle::new_stdout();
        self.push_output(h)
    }

    /// Accepts every byte of `bytes` on output `id`, or none of them.
    pub fn output_write(&mut self, id: OutputId, bytes: &[u8]) -> (r: Result<(), IoError>)
        requires
            old(self).wf(),
        ensures
            final(self).wf(),
            old(self)@.outputs.contains_key(id.index as nat) ==> r is Ok
                && final(self)@ == old(self)@.with_output(id.index as nat, OutputView {
                    pending: old(self)@.outputs[id.index as nat].pending + bytes@,
                    ..old(self)@.outputs[id.index as nat]
                }),
            !old(self)@.outputs.contains_key(id.index as nat) ==> r == Err::<(), IoError>(IoError::StaleHandle)
                && final(self)@ == old(self)@,
    {
        if !self.output_live(id) {
            return Err(IoError::StaleHandle);
        }
        let mut h = self.take_output(id);
        h.write(bytes);
        self.put_output(id, h);
        proof {
            assert(output_map(self.slots@) =~= old(self)@.outputs.insert(id.index as nat, OutputView {
                pending: old(self)@.outputs[id.index as nat].pending + bytes@,
                ..old(self)@.outputs[id.index as nat]
            }));
        }
        Ok(())
    }

    /// Hands the pending bytes of output `id` on to the backend.
    pub fn output_flush(&mut self, id: OutputId) -> (r: Result<(), IoError>)
        requires
            old(self).wf(),
        ensures
            final(self).wf(),
            old(self)@.outputs.contains_key(id.index as nat) ==> r is Ok
                && final(self)@ == old(self)@.flushed(id.index as nat),
            !old(self)@.outputs.contains_key(id.index as nat) ==> r == Err::<(), IoError>(IoError::StaleHandle)
                && final(self)@ == old(self)@,
    {
        if !self.output_live(id) {
            return Err(IoError::StaleHandle);
        }
        let mut h = self.take_output(id);
        let pending = h.take_pending();
        if h.is_stdout() {
            crate::bytes::append_bytes(&mut self.stdout, pending.as_slice());
        } else {
            self.store.append(h.name().as_slice(), pending.as_slice());
        }
        self.put_output(id, h);
        proof {
            let k = id.index as nat;
            let o = old(self)@.outputs[k];
            assert(output_map(self.slots@) =~= old(self)@.outputs.insert(k, OutputView { pending: Seq::empty(), ..o }));
        }
        Ok(())
    }

    /// Flushes output `id` and closes it.
    pub fn output_close(&mut self, id: OutputId) -> (r: Result<(), IoError>)
        requires
            old(self).wf(),
        ensures
            final(self).wf(),
            old(self)@.outputs.contains_key(id.index as nat) ==> r is Ok
                && final(self)@ == closed_output(old(self)@, id.index as nat),
            !old(self)@.outputs.contains_key(id.index as nat) ==> r == Err::<(), IoError>(IoError::StaleHandle)
                && final(self)@ == old(self)@,
    {
        if !self.output_live(id) {
            return Err(IoError::StaleHandle);
        }
        let _ = self.output_flush(id);
        let ghost mid = self@;
        let _h = self.take_output(id);
        proof {
            assert(self@.outputs =~= mid.outputs.remove(id.index as nat));
        }
        Ok(())
    }

    /// Closes every handle that is still open: outputs are flushed first,
    /// in slot order, then released with the inputs.
    pub fn close_all(&mut self)
        requires
            old(self).wf(),
        ensures
            final(self).wf(),
            final(self)@ == (EngineView {
                inputs: Map::empty(),
                outputs: Map::empty(),
                ..outputs_closed_below(old(self)@, old(self)@.slots)
            }),
    {
        let n = self.slots.len();
        let mut i: usize = 0;
        while i < n
            invariant
                self.wf(),
                0 <= i <= n,
                n == old(self)@.slots,
                self@ == outputs_closed_below(old(self)@, i as nat),
            decreases n - i,
        {
            proof {
                lemma_closed_below_slots(old(self)@, i as nat);
            }
            let id = OutputId { index: i };
            if self.output_live(id) {
                let _ = self.output_close(id);
            }
            i = i + 1;
        }
        proof {
            lemma_closed_below_slots(old(self)@, n as nat);
            assert(self@.outputs =~= Map::<nat, OutputView>::empty());
        }
        let ghost mid = self@;
        let mut j: usize = 0;
        while j < n
            invariant
                self.wf(),
                0 <= j <= n,
                n == self.slots@.len(),
                mid.outputs == Map::<nat, OutputView>::empty(),
                self@ == (EngineView { inputs: self@.inputs, ..mid }),
                forall|k: int| 0 <= k < j ==> !(self.slots@[k] is Input),
            decreases n - j,
        {
            let is_input = match &self.slots[j] {
                Slot::Input(_) => true,
                _ => false,
            };
            if is_input {
                let ghost before = self.slots@;
                self.slots.set(j, Slot::Free);
                proof {
                    assert(output_map(self.slots@) =~= output_map(before));
                }
            }
            j = j + 1;
        }
        proof {
            assert(input_map(self.slots@) =~= Map::<nat, InputView>::empty());
        }
    }
}

/// Closing outputs keeps the slot counts, and leaves no output open below
/// `n` nor any that was not open before.
proof fn lemma_closed_below_slots(v: EngineView, n: nat)
    ensures
        outputs_closed_below(v, n).slots == v.slots,
        forall|k: nat| #[trigger] outputs_closed_below(v, n).outputs.contains_key(k)
            ==> k >= n && v.outputs.contains_key(k),
    decreases n,
{
    if n > 0 {
        lemma_closed_below_slots(v, (n - 1) as nat);
    }
}

} // verus!
