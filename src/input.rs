use vstd::prelude::*;

use crate::error::{IoError, SeekFrom};
use crate::format::FileFormat;

verus! {

/// The abstract state of an input handle.
pub struct InputView {
    /// Every byte of the underlying stream.
    pub data: Seq<u8>,
    /// The position of the next byte the stream hands out; it may lie past
    /// the end after a seek.
    pub pos: int,
    /// The byte pushed back by `ungetc`, if any.
    pub pushback: Option<u8>,
    /// Whether a read has run into the end since the last seek.
    pub at_eof: bool,
    /// The format the handle was opened with.
    pub format: FileFormat,
    /// Whether the handle was opened as a compressed stream.
    pub compressed: bool,
}

/// The bytes that reading would hand out, in order: the pushed-back byte
/// first, then what the stream holds from its position on.
pub open spec fn remaining(v: InputView) -> Seq<u8> {
    let pb = match v.pushback {
        Some(b) => seq![b],
        None => Seq::<u8>::empty(),
    };
    if 0 <= v.pos < v.data.len() {
        pb + v.data.subrange(v.pos, v.data.len() as int)
    } else {
        pb
    }
}

/// One `getc`: the pushed-back byte if there is one, else the byte at the
/// position; at the end, `UnexpectedEof` and nothing moves.
pub open spec fn getc_step(v: InputView) -> (InputView, Result<u8, IoError>) {
    match v.pushback {
        Some(b) => (InputView { pushback: None, ..v }, Ok(b)),
        None => if 0 <= v.pos < v.data.len() {
            (InputView { pos: v.pos + 1, ..v }, Ok(v.data[v.pos]))
        } else {
            (InputView { at_eof: true, ..v }, Err(IoError::UnexpectedEof))
        },
    }
}

/// One `ungetc(b)`: fails if a byte is already pushed back.
pub open spec fn ungetc_step(v: InputView, b: u8) -> (InputView, Result<(), IoError>) {
    match v.pushback {
        Some(_) => (v, Err(IoError::PushbackFull)),
        None => (InputView { pushback: Some(b), at_eof: false, ..v }, Ok(())),
    }
}

/// The position a seek asks for, whether or not it is representable.
pub open spec fn seek_target(v: InputView, from: SeekFrom) -> int {
    match from {
        SeekFrom::Start(o) => o as int,
        SeekFrom::Current(o) => v.pos + o,
        SeekFrom::End(o) => v.data.len() + o,
    }
}

/// One seek: a pending pushed-back byte is dropped whatever the outcome; the
/// target must lie in `0..=u64::MAX`, so a negative offset from the start
/// fails as C's `fseek` does.
pub open spec fn seek_step(v: InputView, from: SeekFrom) -> (InputView, Result<u64, IoError>) {
    let t = seek_target(v, from);
    if 0 <= t <= u64::MAX {
        (InputView { pos: t, pushback: None, at_eof: false, ..v }, Ok(t as u64))
    } else {
        (InputView { pushback: None, ..v }, Err(IoError::InvalidSeek))
    }
}

/// One read of exactly `n` bytes: either all of them, or `UnexpectedEof`
/// with everything that was left consumed.
pub open spec fn read_step(v: InputView, n: nat) -> (InputView, Result<Seq<u8>, IoError>) {
    let rest = remaining(v);
    if n <= rest.len() {
        if n == 0 {
            (v, Ok(Seq::<u8>::empty()))
        } else {
            let from_stream = if v.pushback is Some { n - 1 } else { n as int };
            (InputView { pos: v.pos + from_stream, pushback: None, ..v }, Ok(rest.subrange(0, n as int)))
        }
    } else {
        let end = if v.pos < v.data.len() { v.data.len() as int } else { v.pos };
        (InputView { pos: end, pushback: None, at_eof: true, ..v }, Err(IoError::UnexpectedEof))
    }
}

/// An open input stream with one byte of pushback.
pub struct InputHandle {
    data: Vec<u8>,
    pos: u64,
    pushback: Option<u8>,
    at_eof: bool,
    format: FileFormat,
    compressed: bool,
}

impl View for InputHandle {
    type V = InputView;

    closed spec fn view(&self) -> InputView {
        InputView {
            data: self.data@,
            pos: self.pos as int,
            pushback: self.pushback,
            at_eof: self.at_eof,
            format: self.format,
            compressed: self.compressed,
        }
    }
}

impl InputHandle {
    /// The position of a handle is never negative, and fits a `u64`.
    pub proof fn lemma_pos_bounded(&self)
        ensures
            0 <= self@.pos <= u64::MAX,
    {
    }

    /// A handle at the start of `data`, with nothing pushed back.
    pub fn new(data: Vec<u8>, format: FileFormat, compressed: bool) -> (r: InputHandle)
        ensures
            r@ == (InputView { data: data@, pos: 0, pushback: None, at_eof: false, format, compressed }),
    {
        InputHandle { data, pos: 0, pushback: None, at_eof: false, format, compressed }
    }

    pub fn format(&self) -> (r: FileFormat)
        ensures
            r == self@.format,
    {
        self.format
    }

    pub fn is_compressed(&self) -> (r: bool)
        ensures
            r == self@.compressed,
    {
        self.compressed
    }

    /// Whether a read has run into the end since the last seek or push back.
    pub fn at_eof(&self) -> (r: bool)
        ensures
            r == self@.at_eof,
    {
        self.at_eof
    }

    /// The size of the whole stream in bytes.
    pub fn get_size(&self) -> (r: usize)
        ensures
            r == self@.data.len(),
    {
        self.data.len()
    }

    pub fn getc(&mut self) -> (r: Result<u8, IoError>)
        ensures
            (final(self)@, r) == getc_step(old(self)@),
    {
        match self.pushback {
            Some(b) => {
                self.pushback = None;
                Ok(b)
            },
            None => {
                if self.pos < self.data.len() as u64 {
                    let b = self.data[self.pos as usize];
                    self.pos = self.pos + 1;
                    Ok(b)
                } else {
                    self.at_eof = true;
                    Err(IoError::UnexpectedEof)
                }
            },
        }
    }

    pub fn ungetc(&mut self, b: u8) -> (r: Result<(), IoError>)
        ensures
            (final(self)@, r) == ungetc_step(old(self)@, b),
    {
        if self.pushback.is_some() {
            Err(IoError::PushbackFull)
        } else {
            self.pushback = Some(b);
            self.at_eof = false;
            Ok(())
        }
    }

    pub fn seek(&mut self, from: SeekFrom) -> (r: Result<u64, IoError>)
        ensures
            (final(self)@, r) == seek_step(old(self)@, from),
    {
        self.pushback = None;
        let target: i128 = match from {
            SeekFrom::Start(o) => o as i128,
            SeekFrom::Current(o) => self.pos as i128 + o as i128,
            SeekFrom::End(o) => self.data.len() as i128 + o as i128,
        };
        if 0 <= target && target <= u64::MAX as i128 {
            self.pos = target as u64;
            self.at_eof = false;
            Ok(self.pos)
        } else {
            Err(IoError::InvalidSeek)
        }
    }

    /// Fills all of `buf`, or fails with `UnexpectedEof` when fewer bytes are
    /// left; after a failure the contents of `buf` are unspecified.
    pub fn read(&mut self, buf: &mut Vec<u8>) -> (r: Result<(), IoError>)
        ensures
            final(buf)@.len() == old(buf)@.len(),
            final(self)@ == read_step(old(self)@, old(buf)@.len()).0,
            r is Ok <==> read_step(old(self)@, old(buf)@.len()).1 is Ok,
            r is Ok ==> read_step(old(self)@, old(buf)@.len()).1 == Ok::<Seq<u8>, IoError>(final(buf)@),
            r is Err ==> r == Err::<(), IoError>(IoError::UnexpectedEof),
    {
        let ghost v0 = self@;
        let n = buf.len();
        let len = self.data.len();
        let stream_left: usize = if self.pos < len as u64 { len - self.pos as usize } else { 0 };
        let has_pb: bool = self.pushback.is_some();
        let avail: u128 = stream_left as u128 + if has_pb { 1u128 } else { 0u128 };
        proof {
            assert(remaining(v0).len() == avail);
        }
        if (n as u128) > avail {
            if self.pos < len as u64 {
                self.pos = len as u64;
            }
            self.pushback = None;
            self.at_eof = true;
            return Err(IoError::UnexpectedEof);
        }
        if n == 0 {
            proof {
                assert(buf@ =~= Seq::<u8>::empty());
            }
            return Ok(());
        }
        let mut i: usize = 0;
        if let Some(b) = self.pushback {
            buf.set(0, b);
            i = 1;
            self.pushback = None;
        }
        let ghost start = i;
        let ghost rest = remaining(v0);
        while i < n
            invariant
                n == buf@.len(),
                n <= rest.len(),
                rest == remaining(v0),
                start <= i <= n,
                start == (if v0.pushback is Some { 1int } else { 0int }),
                self.data@ == v0.data,
                self.pushback is None,
                self.at_eof == v0.at_eof,
                self.format == old(self).format,
                self.compressed == old(self).compressed,
                self.pos as int == v0.pos + (i - start),
                len == self.data@.len(),
                forall|k: int| 0 <= k < i ==> buf@[k] == rest[k],
            decreases n - i,
        {
            proof {
                assert(v0.pos + (i - start) < v0.data.len());
                assert(rest[i as int] == v0.data[self.pos as int]);
            }
            let b = self.data[self.pos as usize];
            buf.set(i, b);
            self.pos = self.pos + 1;
            i = i + 1;
        }
        proof {
            assert(buf@ =~= rest.subrange(0, n as int));
        }
        Ok(())
    }
}

} // verus!
