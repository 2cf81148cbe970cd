use vstd::prelude::*;

verus! {

/// Why a run produces no output.
#[derive(Debug, PartialEq, Eq)]
pub enum RunError {
    /// The entry file's stem is missing or is not valid text.
    EntryName,
    /// The entry file could not be read; carries the reader's message.
    EntryRead(String),
    /// The render engine failed; carries its message unchanged.
    Render(String),
}

} // verus!
