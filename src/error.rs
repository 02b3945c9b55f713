use vstd::prelude::*;

verus! {

/// Why an installation stopped.
#[derive(Debug, Clone, PartialEq, Eq)]
pub enum GrubError {
    /// Opening, reading, writing or copying failed; the text names the step and the path.
    Io(String),
    /// A fragment name that is not valid UTF-8.
    Encoding(Vec<u8>),
    /// The EFI directory holds no vendor directory.
    NotFound,
}

} // verus!
