//! The errors `probe` reports, with their exit codes and machine codes.
use vstd::prelude::*;

use crate::text::{extend_str, chars_of, string_of};

verus! {

broadcast use vstd::string::group_string_axioms;

/// What went wrong: a refused request, a failed read or write (with the
/// system's message), or JSON that could not be read or written (with the
/// parser's message).
pub enum ProbeError {
    Validation(String),
    Io(String),
    Json(String),
}

impl ProbeError {
    /// The process exit code: 2 for I/O failures, 1 otherwise.
    pub fn exit_code(&self) -> (r: i32)
        ensures
            r == match self {
                ProbeError::Io(_) => 2i32,
                _ => 1i32,
            },
    {
        match self {
            ProbeError::Validation(_) => 1,
            ProbeError::Io(_) => 2,
            ProbeError::Json(_) => 1,
        }
    }

    /// The machine-readable code of the error.
    pub fn error_code(&self) -> (r: &'static str)
        ensures
            r@ == match self {
                ProbeError::Validation(_) => "validation_error"@,
                ProbeError::Io(_) => "io_error"@,
                ProbeError::Json(_) => "json_error"@,
            },
    {
        match self {
            ProbeError::Validation(_) => "validation_error",
            ProbeError::Io(_) => "io_error",
            ProbeError::Json(_) => "json_error",
        }
    }

    /// The human-readable message: a validation message as it is, others
    /// prefixed with what failed.
    pub fn message(&self) -> (r: String)
        ensures
            r@ == match self {
                ProbeError::Validation(m) => m@,
                ProbeError::Io(m) => "io error: "@ + m@,
                ProbeError::Json(m) => "json error: "@ + m@,
            },
    {
        match self {
            ProbeError::Validation(m) => m.clone(),
            ProbeError::Io(m) => {
                let mut v = chars_of("io error: ");
                extend_str(&mut v, m.as_str());
                string_of(v.as_slice())
            },
            ProbeError::Json(m) => {
                let mut v = chars_of("json error: ");
                extend_str(&mut v, m.as_str());
                string_of(v.as_slice())
            },
        }
    }
}

} // verus!
