use vstd::prelude::*;

verus! {

/// What can stop a run.
#[derive(Debug, Clone, Copy)]
pub enum WError {
    InternalError(&'static str),
    UsageError(&'static str),
    Io,
    WAsmError,
    ParseError,
    Unsupported,
}

} // verus!
