use vstd::prelude::*;

use crate::boundary::{
    getc_code, getc_outcome, getc_report, input_live, input_outcome, logged, report, write_outcome,
    END_OF_STREAM, GETC_FAILURE,
};
use crate::engine::{Engine, EngineView, Operation};
use crate::error::{IoError, SeekFrom};
use crate::input::{getc_step, read_step, remaining, seek_step, ungetc_step, InputView};

verus! {

/// A byte pushed back onto a handle with nothing pushed back is the next
/// byte `getc` returns; that `getc` empties the slot and leaves the stream
/// where it was. A second push back before that `getc` fails.
pub proof fn law_ungetc_then_getc(v: InputView, b: u8, c: u8)
    requires
        v.pushback is None,
    ensures
        ungetc_step(v, b).1 is Ok,
        getc_step(ungetc_step(v, b).0).1 == Ok::<u8, IoError>(b),
        getc_step(ungetc_step(v, b).0).0.pushback is None,
        getc_step(ungetc_step(v, b).0).0.pos == v.pos,
        getc_step(ungetc_step(v, b).0).0.data == v.data,
        ungetc_step(ungetc_step(v, b).0, c).1 == Err::<(), IoError>(IoError::PushbackFull),
{
}

/// The same at the boundary: `ungetc(b)` on a live token returns 0, and the
/// `getc` that follows returns `b` and reports nothing.
pub proof fn law_boundary_ungetc_then_getc(v: EngineView, t: u64, b: u8)
    requires
        input_live(v, t),
        v.inputs[(t - 1) as nat].pushback is None,
    ensures
        ({
            let u = input_outcome(v, t, |iv: InputView| ungetc_step(iv, b));
            let g = getc_outcome(logged(u.0, report(Operation::Ungetc, 1, u.1)), t);
            &&& u.1 is Ok
            &&& getc_code(g.1) == b as i32
            &&& getc_report(g.1) is None
            &&& g.0.inputs[(t - 1) as nat].pushback is None
            &&& g.0.inputs[(t - 1) as nat].pos == v.inputs[(t - 1) as nat].pos
        }),
{
    let k = (t - 1) as nat;
    let u = input_outcome(v, t, |iv: InputView| ungetc_step(iv, b));
    assert(u.0.inputs.contains_key(k));
    assert(u.0.inputs[k] == ungetc_step(v.inputs[k], b).0);
}

/// A seek drops a pending pushed-back byte: after a successful seek, `getc`
/// returns the byte at the new position, or the end of the stream.
pub proof fn law_seek_discards_pushback(v: InputView, from: SeekFrom)
    requires
        v.pushback is Some,
    ensures
        seek_step(v, from).0.pushback is None,
        seek_step(v, from).1 matches Ok(p) ==> getc_step(seek_step(v, from).0).1 == (if p < v.data.len() {
            Ok::<u8, IoError>(v.data[p as int])
        } else {
            Err::<u8, IoError>(IoError::UnexpectedEof)
        }),
{
}

/// A read of `n` bytes succeeds exactly when `n` bytes are left, and then
/// hands out exactly `n` bytes, the next ones in order; it never succeeds
/// with fewer.
pub proof fn law_read_all_or_nothing(v: InputView, n: nat)
    ensures
        read_step(v, n).1 is Ok <==> n <= remaining(v).len(),
        read_step(v, n).1 matches Ok(s) ==> s.len() == n && s == remaining(v).subrange(0, n as int),
        read_step(v, n).1 is Err ==> read_step(v, n).1 == Err::<Seq<u8>, IoError>(IoError::UnexpectedEof),
{
}

/// A write accepts every byte or none: the count `ttstub_output_write`
/// returns is the full length or zero, and on success every byte is pending,
/// in order.
pub proof fn law_write_all_or_nothing(v: EngineView, t: u64, bytes: Seq<u8>)
    ensures
        ({
            let o = write_outcome(v, t, bytes);
            let count = if o.1 is Ok { bytes.len() } else { 0 };
            &&& count == 0 || count == bytes.len()
            &&& o.1 is Ok ==> o.0.outputs[(t - 1) as nat].pending == v.outputs[(t - 1) as nat].pending + bytes
        }),
{
}

/// `getc` at the end of a stream returns `END_OF_STREAM`, reports nothing
/// and stays at the end, so asking again gives the same answer. Any other
/// failure returns `GETC_FAILURE`, which no byte and not `END_OF_STREAM`
/// equals, and reports exactly one warning.
pub proof fn law_getc_end_and_failure(v: EngineView, t: u64)
    ensures
        ({
            let o = getc_outcome(v, t);
            let after = logged(o.0, getc_report(o.1));
            &&& o.1 == Err::<u8, IoError>(IoError::UnexpectedEof) ==> {
                &&& getc_code(o.1) == END_OF_STREAM
                &&& after.warnings == v.warnings
                &&& getc_outcome(after, t).1 == o.1
            }
            &&& (o.1 is Err && o.1 != Err::<u8, IoError>(IoError::UnexpectedEof)) ==> {
                &&& getc_code(o.1) == GETC_FAILURE
                &&& after.warnings.len() == v.warnings.len() + 1
                &&& after.warnings.drop_last() == v.warnings
            }
            &&& o.1 matches Ok(b) ==> getc_code(o.1) == b as i32 && after.warnings == v.warnings
            &&& END_OF_STREAM != GETC_FAILURE
            &&& forall|b: u8| #[trigger] getc_code(Ok::<u8, IoError>(b)) != END_OF_STREAM
                && getc_code(Ok::<u8, IoError>(b)) != GETC_FAILURE
        }),
{
    let o = getc_outcome(v, t);
    if o.1 == Err::<u8, IoError>(IoError::UnexpectedEof) {
        let k = (t - 1) as nat;
        assert(input_live(v, t));
        assert(o.0.inputs[k] == getc_step(v.inputs[k]).0);
        assert(o.0.inputs.contains_key(k));
    }
    if o.1 is Err && o.1 != Err::<u8, IoError>(IoError::UnexpectedEof) {
        let after = logged(o.0, getc_report(o.1));
        assert(after.warnings.drop_last() =~= v.warnings);
    }
}

/// At the boundary a read never reports partial success: the code
/// `ttstub_input_read` returns is the full length or -1. From a live handle
/// with nothing pushed back and `len` bytes left, it hands out exactly the
/// next `len` bytes, moves past them and reports nothing.
pub proof fn law_boundary_read_all_or_nothing(eng: Engine, t: u64, len: nat)
    requires
        len <= isize::MAX,
    ensures
        ({
            let o = input_outcome(eng@, t, |iv: InputView| read_step(iv, len));
            let code = if o.1 is Ok { len as isize } else { -1isize };
            let k = (t - 1) as nat;
            &&& code == len as isize || code == -1
            &&& code >= 0 ==> code == len
            &&& (input_live(eng@, t) && eng@.inputs[k].pushback is None
                && eng@.inputs[k].pos + len <= eng@.inputs[k].data.len()) ==> {
                let s = eng@.inputs[k];
                &&& o.1 == Ok::<Seq<u8>, IoError>(s.data.subrange(s.pos, s.pos + len))
                &&& o.0.inputs[k].pos == s.pos + len
                &&& logged(o.0, report(Operation::Read, len as usize, o.1)).warnings == eng@.warnings
            }
        }),
{
    eng.lemma_slots_bounded();
    let o = input_outcome(eng@, t, |iv: InputView| read_step(iv, len));
    let k = (t - 1) as nat;
    if input_live(eng@, t) && eng@.inputs[k].pushback is None
        && eng@.inputs[k].pos + len <= eng@.inputs[k].data.len() {
        let s = eng@.inputs[k];
        assert(0 <= s.pos);
        if len > 0 {
            assert(remaining(s) =~= s.data.subrange(s.pos, s.data.len() as int));
            assert(remaining(s).subrange(0, len as int) =~= s.data.subrange(s.pos, s.pos + len));
        } else {
            assert(s.data.subrange(s.pos, s.pos + len) =~= Seq::<u8>::empty());
        }
        assert(o.0.inputs[k] == read_step(s, len).0);
    }
}

} // verus!
