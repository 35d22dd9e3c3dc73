use vstd::prelude::*;
use vstd::utf8::encode_utf8;

verus! {

/// Specialized result type used by the functions of this library.
pub type HidResult<T> = Result<T, HidError>;

/// The error type of this library.
///
/// The mapping from platform errors to `Disconnected` and `NotConnected` is
/// made on a best effort basis.
#[derive(Debug, Clone, PartialEq, Eq)]
pub enum HidError {
    /// The device was disconnected after it had been opened.
    Disconnected,
    /// The device to open is no longer connected.
    NotConnected,
    /// A violated expectation, described in words.
    Message(String),
    /// The description of an operating-system error, kept for diagnostics.
    Other(String),
}

impl HidError {
    /// This error is a message whose text has the bytes `text`.
    pub open spec fn says(self, text: Seq<u8>) -> bool {
        self matches HidError::Message(message) && encode_utf8(message@) == text
    }

    /// An error that carries `msg`.
    pub fn message(msg: &str) -> (e: HidError)
        ensures
            e matches HidError::Message(m) && m@ == msg@,
    {
        HidError::Message(msg.to_owned())
    }

    /// An error that keeps the description of a platform error.
    pub fn from_backend(description: &str) -> (e: HidError)
        ensures
            e matches HidError::Other(m) && m@ == description@,
    {
        HidError::Other(description.to_owned())
    }

    /// The words that describe this error.
    pub open spec fn text(self) -> Seq<char> {
        match self {
            HidError::Message(message) => message@,
            HidError::Other(description) => description@,
            HidError::Disconnected => "The device was disconnected"@,
            HidError::NotConnected => "The device is not connected"@,
        }
    }

    /// The words that describe this error.
    pub fn to_string(&self) -> (text: String)
        ensures
            text@ == self.text(),
    {
        match self {
            HidError::Message(message) => message.clone(),
            HidError::Other(description) => description.clone(),
            HidError::Disconnected => "The device was disconnected".to_owned(),
            HidError::NotConnected => "The device is not connected".to_owned(),
        }
    }
}

} // verus!
