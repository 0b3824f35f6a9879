//! Why an input is not what it should be.
use vstd::prelude::*;

verus! {

/// The reasons for which an input is not the RLP that is expected. These are the errors of
/// `alloy_rlp`.
#[derive(Clone, Copy, Debug, PartialEq, Eq)]
pub enum RlpError {
    /// A number is too large for its type.
    Overflow,
    /// The digits of a number or of a length begin with a zero.
    LeadingZero,
    /// The input ends too early.
    InputTooShort,
    /// A byte that stands for itself has a length prefix.
    NonCanonicalSingleByte,
    /// A short length is written as a long one.
    NonCanonicalSize,
    /// A string has another length than expected.
    UnexpectedLength,
    /// A string stands where a list is expected.
    UnexpectedString,
    /// A list stands where a string is expected.
    UnexpectedList,
    /// The elements of a list are not as long as its header says.
    ListLengthMismatch {
        /// The length that the header gives.
        expected: usize,
        /// The length of the elements.
        got: usize,
    },
    /// Any other reason.
    Custom(&'static str),
}

/// The reasons for which a decoder refuses an input.
#[derive(Clone, Copy, Debug, PartialEq, Eq)]
pub enum DecodeError {
    /// The input is not the RLP that is expected at this place.
    Rlp(RlpError),
    /// The address is not a string of four bytes.
    InvalidIpv4Address,
    /// A list has more elements than are allowed.
    TooManyItems,
    /// Two ports have the same tag.
    DuplicatePortTag,
    /// No port is tagged as the TCP port.
    MissingTcpPort,
    /// No port is tagged as the UDP port.
    MissingUdpPort,
}

impl DecodeError {
    /// The message for the reasons that are about records and not about RLP.
    pub fn message(&self) -> (r: Option<&'static str>)
        ensures
            match self {
                DecodeError::InvalidIpv4Address => r == Some("Invalid IPv4 address"),
                DecodeError::TooManyItems => r == Some("Too many items in vector"),
                DecodeError::DuplicatePortTag => r == Some("duplicate port tag"),
                DecodeError::MissingTcpPort => r == Some("Missing TCP port"),
                DecodeError::MissingUdpPort => r == Some("Missing UDP port"),
                _ => r is None,
            },
    {
        match self {
            DecodeError::InvalidIpv4Address => Some("Invalid IPv4 address"),
            DecodeError::TooManyItems => Some("Too many items in vector"),
            DecodeError::DuplicatePortTag => Some("duplicate port tag"),
            DecodeError::MissingTcpPort => Some("Missing TCP port"),
            DecodeError::MissingUdpPort => Some("Missing UDP port"),
            _ => None,
        }
    }
}

} // verus!
