//! A handle-based I/O layer with the semantics of C's buffered stdio
//! (`fopen`, `fgetc`, `ungetc`, `fread`, `fwrite`, `fseek`, `fclose`),
//! over streams held by an engine that owns every open handle.

pub mod bytes;
pub mod error;
pub mod format;
pub mod input;
pub mod output;
pub mod store;
pub mod engine;
pub mod boundary;
pub mod laws;
