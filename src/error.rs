//! Errors of the register derivation.
use vstd::prelude::*;

verus! {

/// A failure reported by an OTP reader.
#[derive(Clone, Debug, PartialEq, Eq)]
pub struct OtpReadError {
    /// What the reader could not provide.
    pub message: String,
}

/// Why the alert handler registers could not be derived.
#[derive(Clone, Debug, PartialEq, Eq)]
pub enum AlertError {
    /// The OTP reader could not provide a word.
    Read(OtpReadError),
    /// A classification byte is not one of the known encodings.
    BadClass(u8),
    /// An enable byte is not one of the known encodings.
    BadEnable(u8),
    /// An escalation byte is not one of the known encodings.
    BadEscalate(u8),
    /// An alert index is past the end of its register array.
    BadIndex(usize),
    /// A class configuration was given no class.
    BadClassSelection,
}

} // verus!
