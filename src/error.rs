use vstd::prelude::*;

verus! {

/// Why a command could not be carried out.
#[derive(Debug, Clone, Copy, PartialEq, Eq, Structural)]
pub enum CoreError {
    /// Stored content exists but is not a valid entries document.
    DataFormat,
    /// Reading or writing the store failed.
    Io,
    /// Every entry id has been handed out.
    IdsExhausted,
}

} // verus!
