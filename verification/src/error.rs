//! The failures that the operations of this crate report.

use vstd::prelude::*;

verus! {

/// Why an operation produced no image.
#[derive(Clone, Copy, Debug, PartialEq, Eq, Structural)]
pub enum Error {
    /// The payload is not valid transport text, or the bytes are not an image
    /// that the codec reads.
    Decode,
    /// A parameter lies outside the range the operation is defined on.
    InvalidParameter,
    /// More clusters were asked for than there are pixels.
    InvalidClusterCount,
    /// The codec could not write the image, or the written image is too large
    /// to be turned into transport text.
    Encode,
}

impl Error {
    /// The text shown to a user for this error.
    pub open spec fn message_text(self) -> Seq<char> {
        match self {
            Error::Decode => "the image data could not be decoded"@,
            Error::InvalidParameter => "a parameter is out of range"@,
            Error::InvalidClusterCount => "more clusters requested than pixels"@,
            Error::Encode => "the image could not be encoded"@,
        }
    }

    /// Renders the error as a message for display.
    pub fn message(&self) -> (text: String)
        ensures
            text@ == self.message_text(),
    {
        match self {
            Error::Decode => "the image data could not be decoded".to_string(),
            Error::InvalidParameter => "a parameter is out of range".to_string(),
            Error::InvalidClusterCount => "more clusters requested than pixels".to_string(),
            Error::Encode => "the image could not be encoded".to_string(),
        }
    }
}

} // verus!
