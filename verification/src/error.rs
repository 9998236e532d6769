//! The ways in which a request can fail.

use vstd::prelude::*;
use vstd::string::*;

verus! {

/// Why a listing, an upload, a download or an encoding did not succeed.
#[derive(Clone, Copy, Debug, PartialEq, Eq, Structural)]
pub enum ShareError {
    /// The working directory could not be opened for listing.
    DirectoryUnreadable,
    /// The text does not fit into a QR code.
    EncodingError,
    /// An uploaded file could not be written.
    PersistError,
    /// The requested file is absent, is no regular file, or its name is refused.
    NotFound,
}

impl ShareError {
    /// The text of the message that belongs to each failure.
    pub open spec fn spec_message(self) -> Seq<char> {
        match self {
            ShareError::DirectoryUnreadable => "the working directory cannot be read"@,
            ShareError::EncodingError => "the text is too long for a QR code"@,
            ShareError::PersistError => "the uploaded file could not be stored"@,
            ShareError::NotFound => "no such file"@,
        }
    }

    /// A message for the person who made the request.
    pub fn message(&self) -> (text: String)
        ensures
            text@ == self.spec_message(),
    {
        match self {
            ShareError::DirectoryUnreadable => String::from_str(
                "the working directory cannot be read",
            ),
            ShareError::EncodingError => String::from_str("the text is too long for a QR code"),
            ShareError::PersistError => String::from_str("the uploaded file could not be stored"),
            ShareError::NotFound => String::from_str("no such file"),
        }
    }

    /// Whether the failure is answered as "not found" rather than as an
    /// internal error.
    pub fn is_not_found(&self) -> (b: bool)
        ensures
            b == (*self == ShareError::NotFound),
    {
        match self {
            ShareError::NotFound => true,
            _ => false,
        }
    }
}

} // verus!
