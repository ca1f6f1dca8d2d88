//! The ways in which a decode can fail.

use vstd::prelude::*;

verus! {

/// What went wrong.
#[derive(Clone, Copy, Debug, PartialEq, Eq, Structural)]
pub enum ErrorKind {
    /// Fewer bytes remain than the field at hand requires.
    Truncated,
    /// A sync marker or the marker in front of a text token is not the expected literal.
    BadMarker,
    /// The bytes of a text token are not valid UTF-8.
    InvalidEncoding,
    /// A boolean byte holds the given value, which is neither 0 nor 1.
    InvalidFlagValue(u8),
    /// The compressed block is corrupt or ends before its stream does.
    DecompressionError,
}

/// Why and where a decode stopped. The first failure met ends the whole
/// decode; nothing is returned beside it.
#[derive(Clone, Copy, Debug, PartialEq, Eq, Structural)]
pub struct DecodeError {
    /// What went wrong.
    pub kind: ErrorKind,
    /// The number of bytes that the buffer still held, from the first byte
    /// of what could not be read to the end of the buffer. The offset of
    /// that byte is the length of the buffer less this number.
    pub remaining: usize,
    /// Whether the buffer is the header inflated from the frame, and not
    /// the buffer that was handed to the decoder.
    pub inflated: bool,
}

/// The failure of the given kind in front of the bytes `s`.
pub open spec fn failed(kind: ErrorKind, s: Seq<u8>) -> DecodeError {
    DecodeError { kind, remaining: s.len() as usize, inflated: false }
}

/// The failure of the given kind in front of the bytes `input`.
pub fn fail(kind: ErrorKind, input: &[u8]) -> (e: DecodeError)
    ensures
        e == failed(kind, input@),
{
    DecodeError { kind, remaining: input.len(), inflated: false }
}

impl DecodeError {
    /// The same failure, met inside the inflated header.
    pub open spec fn spec_within_header(self) -> DecodeError {
        DecodeError { kind: self.kind, remaining: self.remaining, inflated: true }
    }

    /// The same failure, met inside the inflated header.
    pub fn within_header(self) -> (e: DecodeError)
        ensures
            e == self.spec_within_header(),
    {
        DecodeError { kind: self.kind, remaining: self.remaining, inflated: true }
    }

    /// The offset of the first byte that could not be read, in a buffer of
    /// `len` bytes. It is `None` where the buffer is shorter than what the
    /// failure says was left of it, which is then a failure in another
    /// buffer.
    pub fn offset(&self, len: usize) -> (at: Option<usize>)
        ensures
            at == if self.remaining <= len {
                Some((len - self.remaining) as usize)
            } else {
                None
            },
    {
        if self.remaining <= len {
            Some(len - self.remaining)
        } else {
            None
        }
    }

    /// A short description of what went wrong.
    pub fn describe(&self) -> (text: &'static str)
        ensures
            text@ == match self.kind {
                ErrorKind::Truncated => "input ends before the field does"@,
                ErrorKind::BadMarker => "marker mismatch"@,
                ErrorKind::InvalidEncoding => "text is not valid UTF-8"@,
                ErrorKind::InvalidFlagValue(_) => "boolean byte is neither 0 nor 1"@,
                ErrorKind::DecompressionError => "compressed block cannot be inflated"@,
            },
    {
        match self.kind {
            ErrorKind::Truncated => "input ends before the field does",
            ErrorKind::BadMarker => "marker mismatch",
            ErrorKind::InvalidEncoding => "text is not valid UTF-8",
            ErrorKind::InvalidFlagValue(_) => "boolean byte is neither 0 nor 1",
            ErrorKind::DecompressionError => "compressed block cannot be inflated",
        }
    }
}

} // verus!
