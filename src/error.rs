//! Errors of the SMTP session.

use vstd::prelude::*;

verus! {

/// Why an SMTP session, or one operation on it, failed.
#[derive(Clone, Debug, PartialEq, Eq)]
pub enum SmtpError {
    /// The relay could not be reached.
    ConnectionError,
    /// A bounded step exceeded its deadline.
    Timeout,
    /// The server closed the stream while a reply was awaited.
    ConnectionClosed,
    /// The first line from the server did not carry code 220; it is kept.
    UnexpectedGreeting(String),
    /// The reply to EHLO did not carry code 250; it is kept.
    UnexpectedHello(String),
    /// A reply carried another code than the step required; the line is kept.
    ProtocolViolation(String),
    /// STARTTLS was refused, not offered, or the handshake failed.
    TlsNegotiationFailed,
    /// The reply to AUTH PLAIN did not carry code 235; it is kept.
    AuthenticationRejected(String),
    /// Implicit TLS on connect is not supported by this client.
    UnsupportedTlsMode,
    /// The session had already failed or quit, or was asked out of turn.
    SessionClosed,
}

} // verus!
