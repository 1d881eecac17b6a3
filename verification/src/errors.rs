//! The error taxonomy of the session core.

use vstd::prelude::*;

verus! {

/// Every failure this core can report to a caller.
#[derive(Clone, Copy, Debug, PartialEq, Eq, Structural)]
pub enum MailError {
    /// No account is currently active.
    NoActiveAccount,
    /// No stored credential exists for the account.
    Unauthenticated,
    /// The token is expired and no refresh token is available.
    ReauthRequired,
    /// The token refresh call failed.
    RefreshFailed,
    /// Establishing the connection failed.
    ConnectionFailed,
    /// A remote protocol operation failed.
    ProtocolError,
    /// A composite address was malformed.
    InvalidAddress,
    /// A cache or registry invariant was broken; should be unreachable.
    InternalInvariantViolation,
}

impl MailError {
    /// The human-readable message for this error kind.
    pub open spec fn spec_message(self) -> Seq<char> {
        match self {
            MailError::NoActiveAccount => "No active account. Please add an account first."@,
            MailError::Unauthenticated => "Not authenticated"@,
            MailError::ReauthRequired => "Token expired and no refresh token available. Please re-authenticate."@,
            MailError::RefreshFailed => "Token refresh failed"@,
            MailError::ConnectionFailed => "Connection failed"@,
            MailError::ProtocolError => "Remote operation failed"@,
            MailError::InvalidAddress => "Invalid email ID"@,
            MailError::InternalInvariantViolation => "Failed to store client"@,
        }
    }

    /// Render the error as its message.
    pub fn message(&self) -> (m: String)
        ensures
            m@ == self.spec_message(),
    {
        match self {
            MailError::NoActiveAccount => String::from_str(
                "No active account. Please add an account first.",
            ),
            MailError::Unauthenticated => String::from_str("Not authenticated"),
            MailError::ReauthRequired => String::from_str(
                "Token expired and no refresh token available. Please re-authenticate.",
            ),
            MailError::RefreshFailed => String::from_str("Token refresh failed"),
            MailError::ConnectionFailed => String::from_str("Connection failed"),
            MailError::ProtocolError => String::from_str("Remote operation failed"),
            MailError::InvalidAddress => String::from_str("Invalid email ID"),
            MailError::InternalInvariantViolation => String::from_str("Failed to store client"),
        }
    }
}

} // verus!
