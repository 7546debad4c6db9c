use vstd::prelude::*;

verus! {

/// Why a value could not be decoded.
#[derive(Debug, PartialEq, Eq, Clone, Copy, Structural)]
pub enum BitcoinError {
    /// The buffer is shorter than a field declares or requires.
    InsufficientBytes,
    /// The data is present but malformed: text that is not hexadecimal, or
    /// an identifier that is not 32 bytes long.
    InvalidFormat,
}

} // verus!
