//! The ways in which an exchange with the service can fail.

use vstd::prelude::*;

verus! {

/// Why an operation failed. Nothing is retried and no partial result is
/// handed out: an operation yields its whole result or one of these.
#[derive(Clone, Copy, Debug, PartialEq, Eq, Structural)]
pub enum ClientError {
    /// The token exchange failed: the request could not be made, the status
    /// was not a success, or the body was not a token description.
    Auth,
    /// The completion request failed: it could not be sent, the status was
    /// not a success, or the stream broke off.
    Transport,
    /// The completion stream held bytes that are not UTF-8 text.
    Encoding,
}

impl ClientError {
    /// The description of each error, as characters.
    pub open spec fn description(self) -> Seq<char> {
        match self {
            ClientError::Auth => "token exchange failed"@,
            ClientError::Transport => "completion transport failed"@,
            ClientError::Encoding => "completion stream is not valid UTF-8"@,
        }
    }

    /// A short description of the error, for messages.
    pub fn message(&self) -> (text: String)
        ensures
            text@ == self.description(),
    {
        match self {
            ClientError::Auth => "token exchange failed".to_owned(),
            ClientError::Transport => "completion transport failed".to_owned(),
            ClientError::Encoding => "completion stream is not valid UTF-8".to_owned(),
        }
    }
}

} // verus!
