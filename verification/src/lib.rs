//! A process and open-file introspector in the mold of the classical
//! `lsof`: typed records for processes and their kernel file-table
//! entries, a two-level selection engine over them, and the columnar,
//! terse and field-delimited output formats, each with a verified
//! contract. The OS front end that walks the kernel tables, and the
//! interactive browser, are clients of this library and stay outside it.

pub mod cli;
pub mod error;
pub mod filter;
pub mod model;
pub mod output;
pub mod pipeline;
pub mod platform;
pub mod text;
pub mod tui;
