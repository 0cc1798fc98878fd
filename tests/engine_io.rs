use tectonic_io::boundary::{
    ttstub_input_close, ttstub_input_get_size, ttstub_input_getc, ttstub_input_open,
    ttstub_input_read, ttstub_input_seek, ttstub_input_ungetc, ttstub_output_close,
    ttstub_output_flush, ttstub_output_open, ttstub_output_open_stdout, ttstub_output_putc,
    ttstub_output_write, END_OF_STREAM, GETC_FAILURE, SEEK_CUR, SEEK_END, SEEK_SET,
};
use tectonic_io::engine::{Engine, Operation, Warning};
use tectonic_io::error::IoError;
use tectonic_io::format::{c_format_to_rust, format_code, FileFormat};

const TEX: i32 = 26;

fn engine_with(name: &[u8], data: &[u8]) -> Engine {
    let mut eng = Engine::new();
    eng.add_file(name, data.to_vec());
    eng
}

#[test]
fn missing_input_then_written_output_reads_back() {
    let mut eng = Engine::new();
    assert_eq!(ttstub_input_open(&mut eng, b"note.tex", TEX, 0), 0);
    let out = ttstub_output_open(&mut eng, b"note.tex", 0);
    assert_ne!(out, 0);
    assert_eq!(ttstub_output_write(&mut eng, out, b"hi"), 2);
    assert_eq!(ttstub_output_close(&mut eng, out), 0);
    let inp = ttstub_input_open(&mut eng, b"note.tex", TEX, 0);
    assert_ne!(inp, 0);
    assert_eq!(ttstub_input_getc(&mut eng, inp), 'h' as i32);
    assert_eq!(ttstub_input_getc(&mut eng, inp), 'i' as i32);
    assert_eq!(ttstub_input_getc(&mut eng, inp), END_OF_STREAM);
    assert!(eng.warnings().is_empty());
}

#[test]
fn known_codes_map_to_formats() {
    assert_eq!(c_format_to_rust(26), Some(FileFormat::Tex));
    assert_eq!(c_format_to_rust(3), Some(FileFormat::Tfm));
    assert_eq!(c_format_to_rust(39), Some(FileFormat::ProgramText));
    assert_eq!(c_format_to_rust(40), Some(FileFormat::ProgramBinary));
    assert_eq!(c_format_to_rust(47), Some(FileFormat::OpenType));
}

#[test]
fn unknown_codes_are_rejected() {
    for code in [-1, 0, 2, 5, 9, 48, 1000, i32::MIN, i32::MAX] {
        assert_eq!(c_format_to_rust(code), None);
    }
}

#[test]
fn every_code_round_trips() {
    for code in -5..100 {
        if let Some(f) = c_format_to_rust(code) {
            assert_eq!(format_code(f), code);
            assert_eq!(c_format_to_rust(format_code(f)), Some(f));
        }
    }
}

#[test]
fn unknown_format_opens_nothing_even_for_present_file() {
    let mut eng = engine_with(b"a.tex", b"x");
    assert_eq!(ttstub_input_open(&mut eng, b"a.tex", 2, 0), 0);
    assert_ne!(ttstub_input_open(&mut eng, b"a.tex", TEX, 0), 0);
}

#[test]
fn ungetc_then_getc_returns_byte() {
    let mut eng = engine_with(b"a", b"xyz");
    let h = ttstub_input_open(&mut eng, b"a", TEX, 0);
    assert_eq!(ttstub_input_getc(&mut eng, h), 'x' as i32);
    assert_eq!(ttstub_input_ungetc(&mut eng, h, 'q' as i32), 0);
    assert_eq!(ttstub_input_getc(&mut eng, h), 'q' as i32);
    assert_eq!(ttstub_input_getc(&mut eng, h), 'y' as i32);
    assert!(eng.warnings().is_empty());
}

#[test]
fn second_ungetc_fails() {
    let mut eng = engine_with(b"a", b"xyz");
    let h = ttstub_input_open(&mut eng, b"a", TEX, 0);
    assert_eq!(ttstub_input_ungetc(&mut eng, h, 'q' as i32), 0);
    assert_eq!(ttstub_input_ungetc(&mut eng, h, 'r' as i32), -1);
    assert_eq!(
        eng.warnings().clone(),
        vec![Warning { op: Operation::Ungetc, len: 1, error: IoError::PushbackFull }]
    );
    assert_eq!(ttstub_input_getc(&mut eng, h), 'q' as i32);
}

#[test]
fn ungetc_keeps_low_byte() {
    let mut eng = engine_with(b"a", b"");
    let h = ttstub_input_open(&mut eng, b"a", TEX, 0);
    assert_eq!(ttstub_input_ungetc(&mut eng, h, 0x141), 0);
    assert_eq!(ttstub_input_getc(&mut eng, h), 0x41);
}

#[test]
fn seek_discards_pushback() {
    let mut eng = engine_with(b"a", b"abcdef");
    let h = ttstub_input_open(&mut eng, b"a", TEX, 0);
    assert_eq!(ttstub_input_ungetc(&mut eng, h, 'z' as i32), 0);
    assert_eq!(ttstub_input_seek(&mut eng, h, 3, SEEK_SET), 3);
    assert_eq!(ttstub_input_getc(&mut eng, h), 'd' as i32);
}

#[test]
fn seek_origins() {
    let mut eng = engine_with(b"a", b"abcdef");
    let h = ttstub_input_open(&mut eng, b"a", TEX, 0);
    assert_eq!(ttstub_input_seek(&mut eng, h, -2, SEEK_END), 4);
    assert_eq!(ttstub_input_getc(&mut eng, h), 'e' as i32);
    assert_eq!(ttstub_input_seek(&mut eng, h, -3, SEEK_CUR), 2);
    assert_eq!(ttstub_input_getc(&mut eng, h), 'c' as i32);
    assert_eq!(ttstub_input_seek(&mut eng, h, 10, SEEK_SET), 10);
    assert_eq!(ttstub_input_getc(&mut eng, h), END_OF_STREAM);
    assert!(eng.warnings().is_empty());
}

#[test]
fn seek_before_start_fails_with_warning() {
    let mut eng = engine_with(b"a", b"abc");
    let h = ttstub_input_open(&mut eng, b"a", TEX, 0);
    assert_eq!(ttstub_input_getc(&mut eng, h), 'a' as i32);
    assert_eq!(ttstub_input_seek(&mut eng, h, -5, SEEK_CUR), 0);
    assert_eq!(
        eng.warnings().clone(),
        vec![Warning { op: Operation::Seek, len: 0, error: IoError::InvalidSeek }]
    );
    assert_eq!(ttstub_input_getc(&mut eng, h), 'b' as i32);
}

#[test]
fn read_fills_exactly() {
    let mut eng = engine_with(b"a", b"abcdef");
    let h = ttstub_input_open(&mut eng, b"a", TEX, 0);
    let mut buf = vec![0u8; 4];
    assert_eq!(ttstub_input_read(&mut eng, h, &mut buf), 4);
    assert_eq!(buf, b"abcd".to_vec());
    assert_eq!(ttstub_input_getc(&mut eng, h), 'e' as i32);
}

#[test]
fn read_takes_pushback_first() {
    let mut eng = engine_with(b"a", b"abc");
    let h = ttstub_input_open(&mut eng, b"a", TEX, 0);
    assert_eq!(ttstub_input_getc(&mut eng, h), 'a' as i32);
    assert_eq!(ttstub_input_ungetc(&mut eng, h, 'a' as i32), 0);
    let mut buf = vec![0u8; 3];
    assert_eq!(ttstub_input_read(&mut eng, h, &mut buf), 3);
    assert_eq!(buf, b"abc".to_vec());
}

#[test]
fn short_read_fails() {
    let mut eng = engine_with(b"a", b"abc");
    let h = ttstub_input_open(&mut eng, b"a", TEX, 0);
    let mut buf = vec![0u8; 4];
    assert_eq!(ttstub_input_read(&mut eng, h, &mut buf), -1);
    assert_eq!(
        eng.warnings().clone(),
        vec![Warning { op: Operation::Read, len: 4, error: IoError::UnexpectedEof }]
    );
    assert_eq!(ttstub_input_getc(&mut eng, h), END_OF_STREAM);
}

#[test]
fn empty_read_succeeds() {
    let mut eng = engine_with(b"a", b"");
    let h = ttstub_input_open(&mut eng, b"a", TEX, 0);
    let mut buf: Vec<u8> = Vec::new();
    assert_eq!(ttstub_input_read(&mut eng, h, &mut buf), 0);
}

#[test]
fn get_size_reports_length() {
    let mut eng = engine_with(b"a", b"abcdef");
    let h = ttstub_input_open(&mut eng, b"a", TEX, 0);
    assert_eq!(ttstub_input_get_size(&mut eng, h), 6);
    assert_eq!(ttstub_input_get_size(&mut eng, h + 7), 0);
    assert_eq!(eng.warnings().len(), 1);
}

#[test]
fn getc_at_end_is_silent_and_repeats() {
    let mut eng = engine_with(b"a", b"a");
    let h = ttstub_input_open(&mut eng, b"a", TEX, 0);
    assert_eq!(ttstub_input_getc(&mut eng, h), 'a' as i32);
    assert_eq!(ttstub_input_getc(&mut eng, h), END_OF_STREAM);
    assert_eq!(ttstub_input_getc(&mut eng, h), END_OF_STREAM);
    assert!(eng.warnings().is_empty());
}

#[test]
fn getc_on_closed_handle_fails_once() {
    let mut eng = engine_with(b"a", b"abc");
    let h = ttstub_input_open(&mut eng, b"a", TEX, 0);
    assert_eq!(ttstub_input_close(&mut eng, h), 0);
    assert_eq!(ttstub_input_getc(&mut eng, h), GETC_FAILURE);
    assert_ne!(GETC_FAILURE, END_OF_STREAM);
    assert_eq!(
        eng.warnings().clone(),
        vec![Warning { op: Operation::Getc, len: 1, error: IoError::StaleHandle }]
    );
}

#[test]
fn closing_null_handles_succeeds() {
    let mut eng = Engine::new();
    assert_eq!(ttstub_input_close(&mut eng, 0), 0);
    assert_eq!(ttstub_output_close(&mut eng, 0), 0);
    assert!(eng.warnings().is_empty());
}

#[test]
fn closing_twice_fails() {
    let mut eng = engine_with(b"a", b"abc");
    let h = ttstub_input_open(&mut eng, b"a", TEX, 0);
    assert_eq!(ttstub_input_close(&mut eng, h), 0);
    assert_eq!(ttstub_input_close(&mut eng, h), 1);
    let o = ttstub_output_open(&mut eng, b"b", 0);
    assert_eq!(ttstub_output_close(&mut eng, o), 0);
    assert_eq!(ttstub_output_close(&mut eng, o), 1);
    assert_eq!(eng.warnings().len(), 2);
}

#[test]
fn input_and_output_tokens_do_not_mix() {
    let mut eng = engine_with(b"a", b"abc");
    let o = ttstub_output_open(&mut eng, b"b", 0);
    let s = ttstub_output_open_stdout(&mut eng);
    let i = ttstub_input_open(&mut eng, b"a", TEX, 0);
    assert_ne!(o, i);
    assert_ne!(s, i);
    assert_ne!(o, s);
    assert_eq!(ttstub_output_write(&mut eng, i, b"zz"), 0);
    assert_eq!(ttstub_output_putc(&mut eng, i, 'z' as i32), END_OF_STREAM);
    assert_eq!(ttstub_output_flush(&mut eng, i), 1);
    assert_eq!(ttstub_output_close(&mut eng, i), 1);
    assert_eq!(ttstub_input_getc(&mut eng, o), GETC_FAILURE);
    assert_eq!(ttstub_input_getc(&mut eng, s), GETC_FAILURE);
    assert_eq!(ttstub_input_ungetc(&mut eng, o, 'z' as i32), -1);
    let mut buf = vec![0u8; 1];
    assert_eq!(ttstub_input_read(&mut eng, o, &mut buf), -1);
    assert_eq!(ttstub_input_seek(&mut eng, o, 0, SEEK_SET), 0);
    assert_eq!(ttstub_input_get_size(&mut eng, o), 0);
    assert_eq!(ttstub_input_close(&mut eng, o), 1);
    let warnings = eng.take_warnings();
    assert_eq!(warnings.len(), 11);
    assert!(warnings.iter().all(|w| w.error == IoError::StaleHandle));
    assert_eq!(ttstub_input_getc(&mut eng, i), 'a' as i32);
    assert_eq!(ttstub_output_write(&mut eng, o, b"ok"), 2);
    assert_eq!(ttstub_output_close(&mut eng, o), 0);
    assert_eq!(eng.file(b"b"), Some(b"ok".to_vec()));
}

#[test]
fn write_to_stale_handle_accepts_nothing() {
    let mut eng = Engine::new();
    assert_eq!(ttstub_output_write(&mut eng, 5, b"abc"), 0);
    assert_eq!(
        eng.warnings().clone(),
        vec![Warning { op: Operation::Write, len: 3, error: IoError::StaleHandle }]
    );
}

#[test]
fn putc_returns_its_argument() {
    let mut eng = Engine::new();
    let o = ttstub_output_open(&mut eng, b"out", 0);
    assert_eq!(ttstub_output_putc(&mut eng, o, 'A' as i32), 'A' as i32);
    assert_eq!(ttstub_output_putc(&mut eng, o, 0x142), 0x142);
    assert_eq!(ttstub_output_putc(&mut eng, o + 1, 'C' as i32), END_OF_STREAM);
    assert_eq!(ttstub_output_close(&mut eng, o), 0);
    assert_eq!(eng.file(b"out"), Some(b"AB".to_vec()));
}

#[test]
fn flush_hands_bytes_to_backend() {
    let mut eng = Engine::new();
    let o = ttstub_output_open(&mut eng, b"out", 0);
    assert_eq!(ttstub_output_write(&mut eng, o, b"abc"), 3);
    assert_eq!(eng.file(b"out"), Some(Vec::new()));
    assert_eq!(ttstub_output_flush(&mut eng, o), 0);
    assert_eq!(eng.file(b"out"), Some(b"abc".to_vec()));
    assert_eq!(ttstub_output_write(&mut eng, o, b"de"), 2);
    assert_eq!(ttstub_output_close(&mut eng, o), 0);
    assert_eq!(eng.file(b"out"), Some(b"abcde".to_vec()));
    assert_eq!(ttstub_output_flush(&mut eng, o), 1);
}

#[test]
fn output_open_truncates() {
    let mut eng = engine_with(b"a", b"old contents");
    let o = ttstub_output_open(&mut eng, b"a", 0);
    assert_eq!(eng.file(b"a"), Some(Vec::new()));
    assert_eq!(ttstub_output_close(&mut eng, o), 0);
    let h = ttstub_input_open(&mut eng, b"a", TEX, 0);
    assert_eq!(ttstub_input_getc(&mut eng, h), END_OF_STREAM);
}

#[test]
fn stdout_collects_flushed_bytes() {
    let mut eng = Engine::new();
    let o = ttstub_output_open_stdout(&mut eng);
    assert_ne!(o, 0);
    assert_eq!(ttstub_output_write(&mut eng, o, b"hello"), 5);
    assert!(eng.take_stdout().is_empty());
    assert_eq!(ttstub_output_flush(&mut eng, o), 0);
    assert_eq!(eng.take_stdout(), b"hello".to_vec());
    assert!(eng.take_stdout().is_empty());
}

#[test]
fn take_warnings_empties_sink() {
    let mut eng = Engine::new();
    assert_eq!(ttstub_input_getc(&mut eng, 3), GETC_FAILURE);
    assert_eq!(eng.take_warnings().len(), 1);
    assert!(eng.warnings().is_empty());
}

#[test]
fn close_all_flushes_and_closes_everything() {
    let mut eng = engine_with(b"in", b"abc");
    let i = ttstub_input_open(&mut eng, b"in", TEX, 0);
    let o = ttstub_output_open(&mut eng, b"out", 0);
    let s = ttstub_output_open_stdout(&mut eng);
    assert_eq!(ttstub_output_write(&mut eng, o, b"xyz"), 3);
    assert_eq!(ttstub_output_write(&mut eng, s, b"hey"), 3);
    eng.close_all();
    assert_eq!(eng.file(b"out"), Some(b"xyz".to_vec()));
    assert_eq!(eng.take_stdout(), b"hey".to_vec());
    assert_eq!(ttstub_input_getc(&mut eng, i), GETC_FAILURE);
    assert_eq!(ttstub_output_close(&mut eng, o), 1);
    let again = ttstub_input_open(&mut eng, b"in", TEX, 0);
    assert_eq!(again, 4);
    assert_ne!(again, i);
}

#[test]
fn negative_start_offset_fails() {
    let mut eng = engine_with(b"a", b"abc");
    let h = ttstub_input_open(&mut eng, b"a", TEX, 0);
    assert_eq!(ttstub_input_getc(&mut eng, h), 'a' as i32);
    assert_eq!(ttstub_input_ungetc(&mut eng, h, 'q' as i32), 0);
    assert_eq!(ttstub_input_seek(&mut eng, h, -1, SEEK_SET), 0);
    assert_eq!(
        eng.warnings().clone(),
        vec![Warning { op: Operation::Seek, len: 0, error: IoError::InvalidSeek }]
    );
    assert_eq!(ttstub_input_getc(&mut eng, h), 'b' as i32);
    assert_eq!(ttstub_input_seek(&mut eng, h, 0, SEEK_SET), 0);
    assert_eq!(ttstub_input_getc(&mut eng, h), 'a' as i32);
}

#[test]
fn compressed_flag_is_kept() {
    let mut eng = engine_with(b"a", b"abc");
    let h = ttstub_input_open(&mut eng, b"a", TEX, 1);
    assert_ne!(h, 0);
    assert_eq!(ttstub_input_getc(&mut eng, h), 'a' as i32);
}
