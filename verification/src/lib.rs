//! Core library of an x86 assembly test harness: the test-file format, the
//! configuration schema, ELF inspection, register and memory planning, and
//! the textual reports.
pub mod text;
pub mod numeric;
pub mod types;
pub mod error;
pub mod json;
pub mod parser;
pub mod executor;
pub mod registers;
pub mod report;
pub mod render;
pub mod elf;
pub mod elf_image;
pub mod toolchain;
pub mod trace;
pub mod cli;
pub mod members;
