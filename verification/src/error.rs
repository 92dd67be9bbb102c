//! Error kinds surfaced by the library.

use vstd::prelude::*;
use crate::text::dec_seq;
use crate::text::u64_to_dec;

verus! {

/// The failure kinds: a whole kernel table unreadable, a single process
/// gone, a single target refused, an I/O failure carried as text, or a
/// selection spec that did not parse.
#[derive(Debug, Clone)]
pub enum LoofError {
    Platform(String),
    ProcessNotFound(u32),
    PermissionDenied(String),
    Io(String),
    Parse(String),
}

/// The one-line rendering of an error.
pub open spec fn error_message(e: LoofError) -> Seq<char> {
    match e {
        LoofError::Platform(m) => "Platform error: "@ + m@,
        LoofError::ProcessNotFound(p) => "Process not found: PID "@ + dec_seq(p as nat),
        LoofError::PermissionDenied(m) => "Permission denied: "@ + m@,
        LoofError::Io(m) => "IO error: "@ + m@,
        LoofError::Parse(m) => "Parse error: "@ + m@,
    }
}

impl LoofError {
    /// Render the error as a one-line message.
    pub fn message(&self) -> (r: String)
        ensures
            r@ == error_message(*self),
    {
        match self {
            LoofError::Platform(m) => {
                let mut s = String::from_str("Platform error: ");
                s.append(m.as_str());
                s
            },
            LoofError::ProcessNotFound(p) => {
                let mut s = String::from_str("Process not found: PID ");
                let d = u64_to_dec(*p as u64);
                s.append(d.as_str());
                s
            },
            LoofError::PermissionDenied(m) => {
                let mut s = String::from_str("Permission denied: ");
                s.append(m.as_str());
                s
            },
            LoofError::Io(m) => {
                let mut s = String::from_str("IO error: ");
                s.append(m.as_str());
                s
            },
            LoofError::Parse(m) => {
                let mut s = String::from_str("Parse error: ");
                s.append(m.as_str());
                s
            },
        }
    }
}

} // verus!
