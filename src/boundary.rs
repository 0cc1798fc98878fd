use vstd::prelude::*;

use crate::engine::{closed_output, Engine, EngineView, InputId, Operation, OutputId, Warning};
use crate::error::{IoError, SeekFrom};
use crate::format::{c_format_to_rust, code_of, format_of};
use crate::input::{getc_step, read_step, seek_step, ungetc_step, InputView};
use crate::output::OutputView;

verus! {

/// What `getc` and `putc` return at the end of a stream or when a write
/// fails: C's `EOF`.
pub const END_OF_STREAM: i32 = -1;

/// What `getc` returns when reading fails for another reason than the end
/// of the stream; distinct from every byte and from `END_OF_STREAM`.
pub const GETC_FAILURE: i32 = -2;

/// Seek origins, as C's `SEEK_SET`, `SEEK_CUR` and `SEEK_END` number them.
pub const SEEK_SET: i32 = 0;
pub const SEEK_CUR: i32 = 1;
pub const SEEK_END: i32 = 2;

/// Handle tokens cross the boundary as integers: zero is the null token and
/// the handle in slot `k` travels as `k + 1`. Inputs and outputs share the
/// slots, so a token names at most one handle of either kind.
pub open spec fn token_of(index: nat) -> u64 {
    (index + 1) as u64
}

pub open spec fn input_live(v: EngineView, t: u64) -> bool {
    t != 0 && v.inputs.contains_key((t - 1) as nat)
}

pub open spec fn output_live(v: EngineView, t: u64) -> bool {
    t != 0 && v.outputs.contains_key((t - 1) as nat)
}

/// The state after a warning, if there is one, was reported.
pub open spec fn logged(v: EngineView, w: Option<Warning>) -> EngineView {
    match w {
        Some(w) => EngineView { warnings: v.warnings.push(w), ..v },
        None => v,
    }
}

/// A warning for every failure.
pub open spec fn report<T>(op: Operation, len: usize, r: Result<T, IoError>) -> Option<Warning> {
    match r {
        Ok(_) => None,
        Err(e) => Some(Warning { op, len, error: e }),
    }
}

/// Applies an input step to a live handle; a stale token changes nothing and
/// fails with `StaleHandle`.
pub open spec fn input_outcome<T>(
    v: EngineView,
    t: u64,
    step: spec_fn(InputView) -> (InputView, Result<T, IoError>),
) -> (EngineView, Result<T, IoError>) {
    if input_live(v, t) {
        let s = step(v.inputs[(t - 1) as nat]);
        (v.with_input((t - 1) as nat, s.0), s.1)
    } else {
        (v, Err(IoError::StaleHandle))
    }
}

pub open spec fn getc_outcome(v: EngineView, t: u64) -> (EngineView, Result<u8, IoError>) {
    input_outcome(v, t, |iv: InputView| getc_step(iv))
}

/// The code `getc` returns for an outcome.
pub open spec fn getc_code(r: Result<u8, IoError>) -> i32 {
    match r {
        Ok(b) => b as i32,
        Err(IoError::UnexpectedEof) => END_OF_STREAM,
        Err(_) => GETC_FAILURE,
    }
}

/// The end of a stream is ordinary and is not reported.
pub open spec fn getc_report(r: Result<u8, IoError>) -> Option<Warning> {
    match r {
        Err(IoError::UnexpectedEof) => None,
        _ => report(Operation::Getc, 1, r),
    }
}

/// The outcome of writing `bytes` to the output a token names.
pub open spec fn write_outcome(v: EngineView, t: u64, bytes: Seq<u8>) -> (EngineView, Result<(), IoError>) {
    if output_live(v, t) {
        let k = (t - 1) as nat;
        (v.with_output(k, OutputView { pending: v.outputs[k].pending + bytes, ..v.outputs[k] }), Ok(()))
    } else {
        (v, Err(IoError::StaleHandle))
    }
}

fn input_id(t: u64) -> (r: Option<InputId>)
    ensures
        t == 0 || t - 1 > usize::MAX ==> r is None,
        t != 0 && t - 1 <= usize::MAX ==> r == Some(InputId { index: (t - 1) as usize }),
{
    if t == 0 || t - 1 > usize::MAX as u64 {
        None
    } else {
        Some(InputId { index: (t - 1) as usize })
    }
}

fn output_id(t: u64) -> (r: Option<OutputId>)
    ensures
        t == 0 || t - 1 > usize::MAX ==> r is None,
        t != 0 && t - 1 <= usize::MAX ==> r == Some(OutputId { index: (t - 1) as usize }),
{
    if t == 0 || t - 1 > usize::MAX as u64 {
        None
    } else {
        Some(OutputId { index: (t - 1) as usize })
    }
}

/// Reports a failure, if the result is one.
fn log_failure<T>(eng: &mut Engine, op: Operation, len: usize, r: &Result<T, IoError>)
    ensures
        final(eng).wf() == old(eng).wf(),
        final(eng)@ == logged(old(eng)@, report(op, len, *r)),
{
    match r {
        Ok(_) => {},
        Err(e) => eng.warn(Warning { op, len, error: *e }),
    }
}

/// Opens `name` for writing; the token is never null.
pub fn ttstub_output_open(eng: &mut Engine, name: &[u8], is_gz: i32) -> (r: u64)
    requires
        old(eng).wf(),
    ensures
        final(eng).wf(),
        r == token_of(old(eng)@.slots),
        r != 0,
        !input_live(old(eng)@, r) && !output_live(old(eng)@, r),
        final(eng)@ == (EngineView {
            files: old(eng)@.files.insert(name@, Seq::empty()),
            slots: old(eng)@.slots + 1,
            ..old(eng)@.with_output(old(eng)@.slots, OutputView {
                name: name@,
                to_stdout: false,
                pending: Seq::empty(),
                compressed: is_gz != 0,
            })
        }),
{
    proof {
        old(eng).lemma_slots_bounded();
    }
    let id = eng.output_open(name, is_gz != 0);
    proof {
        eng.lemma_slots_bounded();
    }
    id.index as u64 + 1
}

/// Opens standard output for writing; the token is never null.
pub fn ttstub_output_open_stdout(eng: &mut Engine) -> (r: u64)
    requires
        old(eng).wf(),
    ensures
        final(eng).wf(),
        r == token_of(old(eng)@.slots),
        r != 0,
        !input_live(old(eng)@, r) && !output_live(old(eng)@, r),
        final(eng)@ == (EngineView {
            slots: old(eng)@.slots + 1,
            ..old(eng)@.with_output(old(eng)@.slots, OutputView {
                name: Seq::empty(),
                to_stdout: true,
                pending: Seq::empty(),
                compressed: false,
            })
        }),
{
    proof {
        old(eng).lemma_slots_bounded();
    }
    let id = eng.output_open_stdout();
    proof {
        eng.lemma_slots_bounded();
    }
    id.index as u64 + 1
}

/// Writes the low byte of `c`; returns `c`, or `END_OF_STREAM` on failure.
pub fn ttstub_output_putc(eng: &mut Engine, handle: u64, c: i32) -> (r: i32)
    requires
        old(eng).wf(),
    ensures
        final(eng).wf(),
        ({
            let o = write_outcome(old(eng)@, handle, seq![c as u8]);
            &&& r == (if o.1 is Ok { c } else { END_OF_STREAM })
            &&& final(eng)@ == logged(o.0, report(Operation::Write, 1, o.1))
        }),
{
    proof {
        old(eng).lemma_slots_bounded();
    }
    let b: u8 = #[verifier::truncate] (c as u8);
    let bytes: [u8; 1] = [b];
    let r = match output_id(handle) {
        Some(id) => eng.output_write(id, bytes.as_slice()),
        None => Err(IoError::StaleHandle),
    };
    proof {
        assert(bytes@ =~= seq![c as u8]);
    }
    log_failure(eng, Operation::Write, 1, &r);
    if r.is_ok() {
        c
    } else {
        END_OF_STREAM
    }
}

/// Writes every byte of `data`; returns how many were accepted: all of
/// them, or zero.
pub fn ttstub_output_write(eng: &mut Engine, handle: u64, data: &[u8]) -> (r: usize)
    requires
        old(eng).wf(),
    ensures
        final(eng).wf(),
        ({
            let o = write_outcome(old(eng)@, handle, data@);
            &&& r == (if o.1 is Ok { data@.len() } else { 0 })
            &&& final(eng)@ == logged(o.0, report(Operation::Write, data@.len() as usize, o.1))
        }),
{
    proof {
        old(eng).lemma_slots_bounded();
    }
    let r = match output_id(handle) {
        Some(id) => eng.output_write(id, data),
        None => Err(IoError::StaleHandle),
    };
    log_failure(eng, Operation::Write, data.len(), &r);
    if r.is_ok() {
        data.len()
    } else {
        0
    }
}

/// Hands the pending bytes on to the backend: 0 on success, 1 on failure.
pub fn ttstub_output_flush(eng: &mut Engine, handle: u64) -> (r: i32)
    requires
        old(eng).wf(),
    ensures
        final(eng).wf(),
        output_live(old(eng)@, handle) ==> r == 0 && final(eng)@ == old(eng)@.flushed((handle - 1) as nat),
        !output_live(old(eng)@, handle) ==> r == 1 && final(eng)@ == logged(
            old(eng)@,
            Some(Warning { op: Operation::Flush, len: 0, error: IoError::StaleHandle }),
        ),
{
    proof {
        old(eng).lemma_slots_bounded();
    }
    let r = match output_id(handle) {
        Some(id) => eng.output_flush(id),
        None => Err(IoError::StaleHandle),
    };
    log_failure(eng, Operation::Flush, 0, &r);
    if r.is_ok() {
        0
    } else {
        1
    }
}

/// Flushes and closes an output: 0 on success, 1 on failure. The null
/// token closes successfully and changes nothing.
pub fn ttstub_output_close(eng: &mut Engine, handle: u64) -> (r: i32)
    requires
        old(eng).wf(),
    ensures
        final(eng).wf(),
        handle == 0 ==> r == 0 && final(eng)@ == old(eng)@,
        output_live(old(eng)@, handle) ==> r == 0 && final(eng)@ == closed_output(old(eng)@, (handle - 1) as nat),
        handle != 0 && !output_live(old(eng)@, handle) ==> r == 1 && final(eng)@ == logged(
            old(eng)@,
            Some(Warning { op: Operation::Close, len: 0, error: IoError::StaleHandle }),
        ),
{
    proof {
        old(eng).lemma_slots_bounded();
    }
    if handle == 0 {
        return 0;
    }
    let r = match output_id(handle) {
        Some(id) => eng.output_close(id),
        None => Err(IoError::StaleHandle),
    };
    log_failure(eng, Operation::Close, 0, &r);
    if r.is_ok() {
        0
    } else {
        1
    }
}

/// Opens `name` for reading as the format `format` codes for. An unknown
/// code, like a name the backend does not hold, gives the null token, and
/// an unknown code leaves the backend unasked.
pub fn ttstub_input_open(eng: &mut Engine, name: &[u8], format: i32, is_gz: i32) -> (r: u64)
    requires
        old(eng).wf(),
    ensures
        final(eng).wf(),
        format_of(format as int) is None ==> r == 0 && final(eng)@ == old(eng)@,
        format_of(format as int) is Some && !old(eng)@.files.contains_key(name@) ==> r == 0
            && final(eng)@ == old(eng)@,
        format_of(format as int) is Some && old(eng)@.files.contains_key(name@) ==> ({
            let f = format_of(format as int).unwrap();
            &&& code_of(f) == format as int
            &&& r == token_of(old(eng)@.slots)
            &&& r != 0
            &&& !input_live(old(eng)@, r) && !output_live(old(eng)@, r)
            &&& final(eng)@ == (EngineView {
                slots: old(eng)@.slots + 1,
                ..old(eng)@.with_input(old(eng)@.slots, InputView {
                    data: old(eng)@.files[name@],
                    pos: 0,
                    pushback: None,
                    at_eof: false,
                    format: f,
                    compressed: is_gz != 0,
                })
            })
        }),
{
    proof {
        old(eng).lemma_slots_bounded();
    }
    match c_format_to_rust(format) {
        Some(fmt) => match eng.input_open(name, fmt, is_gz != 0) {
            Some(id) => {
                proof {
                    eng.lemma_slots_bounded();
                }
                id.index as u64 + 1
            },
            None => 0,
        },
        None => 0,
    }
}

/// The size of the stream, or 0 with a warning for a stale token.
pub fn ttstub_input_get_size(eng: &mut Engine, handle: u64) -> (r: usize)
    requires
        old(eng).wf(),
    ensures
        final(eng).wf(),
        input_live(old(eng)@, handle) ==> r == old(eng)@.inputs[(handle - 1) as nat].data.len()
            && final(eng)@ == old(eng)@,
        !input_live(old(eng)@, handle) ==> r == 0 && final(eng)@ == logged(
            old(eng)@,
            Some(Warning { op: Operation::GetSize, len: 0, error: IoError::StaleHandle }),
        ),
{
    proof {
        old(eng).lemma_slots_bounded();
    }
    let r = match input_id(handle) {
        Some(id) => eng.input_get_size(id),
        None => Err(IoError::StaleHandle),
    };
    log_failure(eng, Operation::GetSize, 0, &r);
    match r {
        Ok(n) => n,
        Err(_) => 0,
    }
}

/// The seek a C origin code asks for.
pub open spec fn seek_from(offset: i64, whence: i32) -> SeekFrom {
    if whence == SEEK_SET {
        SeekFrom::Start(offset)
    } else if whence == SEEK_CUR {
        SeekFrom::Current(offset)
    } else {
        SeekFrom::End(offset)
    }
}

/// Seeks; returns the new position, or 0 with a warning on failure. Any
/// pushed-back byte is dropped. An origin code other than `SEEK_SET`,
/// `SEEK_CUR` and `SEEK_END` is a caller's defect and is not accepted.
pub fn ttstub_input_seek(eng: &mut Engine, handle: u64, offset: i64, whence: i32) -> (r: u64)
    requires
        old(eng).wf(),
        whence == SEEK_SET || whence == SEEK_CUR || whence == SEEK_END,
    ensures
        final(eng).wf(),
        ({
            let o = input_outcome(old(eng)@, handle, |iv: InputView| seek_step(iv, seek_from(offset, whence)));
            &&& r == (match o.1 {
                Ok(p) => p,
                Err(_) => 0,
            })
            &&& final(eng)@ == logged(o.0, report(Operation::Seek, 0, o.1))
        }),
{
    proof {
        old(eng).lemma_slots_bounded();
    }
    let from = if whence == SEEK_SET {
        SeekFrom::Start(offset)
    } else if whence == SEEK_CUR {
        SeekFrom::Current(offset)
    } else {
        SeekFrom::End(offset)
    };
    let r = match input_id(handle) {
        Some(id) => eng.input_seek(id, from),
        None => Err(IoError::StaleHandle),
    };
    log_failure(eng, Operation::Seek, 0, &r);
    match r {
        Ok(p) => p,
        Err(_) => 0,
    }
}

/// Reads one byte: the byte, `END_OF_STREAM` at the end (not reported), or
/// `GETC_FAILURE` with one warning.
pub fn ttstub_input_getc(eng: &mut Engine, handle: u64) -> (r: i32)
    requires
        old(eng).wf(),
    ensures
        final(eng).wf(),
        r == getc_code(getc_outcome(old(eng)@, handle).1),
        final(eng)@ == logged(getc_outcome(old(eng)@, handle).0, getc_report(getc_outcome(old(eng)@, handle).1)),
{
    proof {
        old(eng).lemma_slots_bounded();
    }
    let r = match input_id(handle) {
        Some(id) => eng.input_getc(id),
        None => Err(IoError::StaleHandle),
    };
    match r {
        Ok(b) => b as i32,
        Err(IoError::UnexpectedEof) => END_OF_STREAM,
        Err(e) => {
            eng.warn(Warning { op: Operation::Getc, len: 1, error: e });
            GETC_FAILURE
        },
    }
}

/// Pushes back the low byte of `ch`: 0, or -1 with a warning when a byte
/// is already pushed back or the token is stale.
pub fn ttstub_input_ungetc(eng: &mut Engine, handle: u64, ch: i32) -> (r: i32)
    requires
        old(eng).wf(),
    ensures
        final(eng).wf(),
        ({
            let o = input_outcome(old(eng)@, handle, |iv: InputView| ungetc_step(iv, ch as u8));
            &&& r == (if o.1 is Ok { 0i32 } else { -1i32 })
            &&& final(eng)@ == logged(o.0, report(Operation::Ungetc, 1, o.1))
        }),
{
    proof {
        old(eng).lemma_slots_bounded();
    }
    let b: u8 = #[verifier::truncate] (ch as u8);
    let r = match input_id(handle) {
        Some(id) => eng.input_ungetc(id, b),
        None => Err(IoError::StaleHandle),
    };
    log_failure(eng, Operation::Ungetc, 1, &r);
    if r.is_ok() {
        0
    } else {
        -1
    }
}

/// Fills all of `data`: returns its length, or -1 with a warning when it
/// cannot be filled, in which case its contents are unspecified.
pub fn ttstub_input_read(eng: &mut Engine, handle: u64, data: &mut Vec<u8>) -> (r: isize)
    requires
        old(eng).wf(),
        old(data)@.len() <= isize::MAX,
    ensures
        final(eng).wf(),
        final(data)@.len() == old(data)@.len(),
        ({
            let o = input_outcome(old(eng)@, handle, |iv: InputView| read_step(iv, old(data)@.len()));
            &&& r == (if o.1 is Ok { old(data)@.len() as isize } else { -1isize })
            &&& o.1 is Ok ==> o.1 == Ok::<Seq<u8>, IoError>(final(data)@)
            &&& final(eng)@ == logged(o.0, report(Operation::Read, old(data)@.len() as usize, o.1))
        }),
{
    proof {
        old(eng).lemma_slots_bounded();
    }
    let len = data.len();
    let r = match input_id(handle) {
        Some(id) => eng.input_read(id, data),
        None => Err(IoError::StaleHandle),
    };
    log_failure(eng, Operation::Read, len, &r);
    if r.is_ok() {
        len as isize
    } else {
        -1
    }
}

/// Closes an input: 0 on success, 1 with a warning on failure. The null
/// token closes successfully and changes nothing.
pub fn ttstub_input_close(eng: &mut Engine, handle: u64) -> (r: i32)
    requires
        old(eng).wf(),
    ensures
        final(eng).wf(),
        handle == 0 ==> r == 0 && final(eng)@ == old(eng)@,
        input_live(old(eng)@, handle) ==> r == 0
            && final(eng)@ == (EngineView { inputs: old(eng)@.inputs.remove((handle - 1) as nat), ..old(eng)@ }),
        handle != 0 && !input_live(old(eng)@, handle) ==> r == 1 && final(eng)@ == logged(
            old(eng)@,
            Some(Warning { op: Operation::Close, len: 0, error: IoError::StaleHandle }),
        ),
{
    proof {
        old(eng).lemma_slots_bounded();
    }
    if handle == 0 {
        return 0;
    }
    let r = match input_id(handle) {
        Some(id) => eng.input_close(id),
        None => Err(IoError::StaleHandle),
    };
    log_failure(eng, Operation::Close, 0, &r);
    if r.is_ok() {
        0
    } else {
        1
    }
}

} // verus!
