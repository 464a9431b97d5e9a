use vstd::prelude::*;

verus! {

/// The single error sum of the engine.
///
/// `Io` carries an underlying I/O failure, described by its message;
/// `Corrupt` marks a data-integrity violation; `Unsupported` marks
/// well-formed input that this engine does not handle.
#[derive(Debug)]
pub enum Error {
    Io(String),
    Corrupt(String),
    Unsupported(String),
}

} // verus!
