use vstd::prelude::*;

verus! {

/// Why a buffer could not be decoded.
#[derive(Debug, Clone, Copy, PartialEq, Eq, Structural)]
pub enum DecodeError {
    /// The leading signature is neither the container's nor the envelope's.
    BadMagic,
    /// The envelope's payload could not be inflated.
    DecompressionError,
    /// A fixed-width read ran past the end of the buffer.
    Truncated,
    /// An offset found in the buffer, or the block it announces, lies
    /// outside the buffer.
    OffsetOutOfRange,
    /// A list ran to the end of the buffer, or past the entry limit,
    /// without reaching its terminator.
    UnterminatedList,
}

impl DecodeError {
    /// The text shown for each error.
    pub open spec fn message_text(self) -> Seq<char> {
        match self {
            DecodeError::BadMagic => "The uploaded file is not a skin!"@,
            DecodeError::DecompressionError => "the packed skin could not be unpacked"@,
            DecodeError::Truncated => "the skin ends in the middle of a field"@,
            DecodeError::OffsetOutOfRange => "an offset in the skin points outside the file"@,
            DecodeError::UnterminatedList => "a list in the skin has no terminator"@,
        }
    }

    /// A short description for the user.
    pub fn message(&self) -> (text: &'static str)
        ensures
            text@ == self.message_text(),
    {
        match self {
            DecodeError::BadMagic => "The uploaded file is not a skin!",
            DecodeError::DecompressionError => "the packed skin could not be unpacked",
            DecodeError::Truncated => "the skin ends in the middle of a field",
            DecodeError::OffsetOutOfRange => "an offset in the skin points outside the file",
            DecodeError::UnterminatedList => "a list in the skin has no terminator",
        }
    }
}

/// `head` followed by what `tail` holds, or the failure of `tail`.
pub open spec fn after<T>(head: Seq<T>, tail: Result<Seq<T>, DecodeError>) -> Result<
    Seq<T>,
    DecodeError,
> {
    match tail {
        Ok(rest) => Ok(head + rest),
        Err(e) => Err(e),
    }
}

} // verus!
