//! Protocol error types.

use vstd::prelude::*;
use vstd::string::StringExecFns;
use crate::text::{decimal, decimal_string};

verus! {

/// What `std::io::Error` is to the verifier: an opaque value that is only
/// carried through.
#[verifier::external_type_specification]
#[verifier::external_body]
pub struct ExIoError(std::io::Error);

/// The ways in which a byte string can fail to be a frame.
#[derive(Debug)]
pub enum ProtoError {
    /// The first byte is none of the six command tags.
    InvalidCommand(u8),
    /// The message has no bytes at all.
    EmptyMessage,
    /// The message ends before the body that its tag and length fields announce.
    InsufficientData,
    /// A host or an error text is not valid UTF-8.
    InvalidUtf8,
    /// The message is longer than the limit: its length, then the limit.
    FrameTooLarge(usize, usize),
    /// The transport failed underneath the codec.
    Io(std::io::Error),
}

/// `std::io::Error::to_string`: what the error says of itself, of which
/// nothing is known beforehand.
#[verifier::external_body]
fn io_error_text(error: &std::io::Error) -> String {
    error.to_string()
}

impl ProtoError {
    /// What the error says, for all but a transport failure, which speaks
    /// for itself.
    pub open spec fn text(self) -> Seq<char> {
        match self {
            ProtoError::InvalidCommand(byte) => "Invalid command byte: "@ + decimal(byte as nat),
            ProtoError::EmptyMessage => "Empty message"@,
            ProtoError::InsufficientData => "Insufficient data in message"@,
            ProtoError::InvalidUtf8 => "Invalid UTF-8 in message"@,
            ProtoError::FrameTooLarge(len, max) => "Frame too large: "@ + decimal(len as nat)
                + " bytes (max "@ + decimal(max as nat) + ")"@,
            ProtoError::Io(_) => "IO error: "@,
        }
    }

    /// What the error says. A transport failure says `IO error: ` and what
    /// the failure says of itself.
    pub fn message(&self) -> (m: String)
        ensures
            !(self is Io) ==> m@ == self.text(),
            self is Io ==> self.text().is_prefix_of(m@),
    {
        match self {
            ProtoError::InvalidCommand(byte) => {
                let mut m = "Invalid command byte: ".to_owned();
                m.append(decimal_string(*byte as u64).as_str());
                m
            },
            ProtoError::EmptyMessage => "Empty message".to_owned(),
            ProtoError::InsufficientData => "Insufficient data in message".to_owned(),
            ProtoError::InvalidUtf8 => "Invalid UTF-8 in message".to_owned(),
            ProtoError::FrameTooLarge(len, max) => {
                let mut m = "Frame too large: ".to_owned();
                m.append(decimal_string(*len as u64).as_str());
                m.append(" bytes (max ");
                m.append(decimal_string(*max as u64).as_str());
                m.append(")");
                m
            },
            ProtoError::Io(error) => {
                let mut m = "IO error: ".to_owned();
                let said = io_error_text(error);
                m.append(said.as_str());
                assert(m@.subrange(0, "IO error: "@.len() as int) =~= "IO error: "@);
                m
            },
        }
    }
}

} // verus!
