//! Failures of the boundary operations and the integer status each one is
//! reported as: zero or a size for success, a negative code for a failure.

use vstd::prelude::*;

verus! {

/// Why a connect failed, by the step that failed. No failure leaves anything
/// behind in the registry.
#[derive(Clone, Copy, PartialEq, Eq, Debug, Structural)]
pub enum ConnectError {
    /// No host (or no path) was given.
    MissingHost,
    /// The host (or the path) is not valid UTF-8.
    InvalidEncoding,
    /// The host name did not resolve to an address.
    Resolution,
    /// No local socket could be bound.
    Bind,
    /// The transport or its protocol parameters could not be set up.
    Configuration,
    /// The peer and this side agreed on no application protocol, or the peer
    /// refused the session that was requested on the connection.
    Negotiation,
    /// The handshake with the peer failed, was refused or timed out.
    Handshake,
    /// Host, port and path do not form a valid address.
    InvalidUrl,
    /// Every connection identifier has been handed out.
    Exhausted,
}

impl ConnectError {
    /// The status that reports this failure.
    pub open spec fn spec_code(self) -> int {
        match self {
            ConnectError::MissingHost => -1,
            ConnectError::InvalidEncoding => -2,
            ConnectError::Negotiation => -3,
            ConnectError::Resolution => -4,
            ConnectError::Bind => -5,
            ConnectError::Configuration => -6,
            ConnectError::Handshake => -7,
            ConnectError::InvalidUrl => -8,
            ConnectError::Exhausted => -9,
        }
    }

    /// The status that reports this failure.
    pub fn code(self) -> (status: i32)
        ensures
            status == self.spec_code(),
            status < 0,
    {
        match self {
            ConnectError::MissingHost => -1,
            ConnectError::InvalidEncoding => -2,
            ConnectError::Negotiation => -3,
            ConnectError::Resolution => -4,
            ConnectError::Bind => -5,
            ConnectError::Configuration => -6,
            ConnectError::Handshake => -7,
            ConnectError::InvalidUrl => -8,
            ConnectError::Exhausted => -9,
        }
    }
}

/// First code of the range in which the close of a QUIC connection carries a
/// TLS alert: the code is this base plus the alert.
pub const CRYPTO_ERROR_BASE: u64 = 256;

/// The TLS alert of a peer that supports none of the application protocols
/// it was offered.
pub const NO_APPLICATION_PROTOCOL_ALERT: u64 = 120;

/// How the last step of a connect failed, as the transport tells it.
#[derive(Clone, Copy, PartialEq, Eq, Debug, Structural)]
pub enum HandshakeFailure {
    /// The connection was closed with this QUIC transport error code.
    Closed(u64),
    /// The connection stood, and the peer refused the session that was
    /// requested on it or the exchange of its protocol settings failed.
    SessionRefused,
    /// Anything else: no answer in time, a reset, a failure on this side.
    Other,
}

/// The connect failure that a failed last step is reported as: a failed
/// protocol negotiation where the peer answered with the alert for it or
/// refused the session, a failed handshake otherwise.
pub open spec fn handshake_error(failure: HandshakeFailure) -> ConnectError {
    match failure {
        HandshakeFailure::Closed(code) => if code == CRYPTO_ERROR_BASE
            + NO_APPLICATION_PROTOCOL_ALERT {
            ConnectError::Negotiation
        } else {
            ConnectError::Handshake
        },
        HandshakeFailure::SessionRefused => ConnectError::Negotiation,
        HandshakeFailure::Other => ConnectError::Handshake,
    }
}

/// Tells a failed protocol negotiation from any other failed handshake.
pub fn classify_handshake_failure(failure: HandshakeFailure) -> (error: ConnectError)
    ensures
        error == handshake_error(failure),
{
    match failure {
        HandshakeFailure::Closed(code) => {
            if code == CRYPTO_ERROR_BASE + NO_APPLICATION_PROTOCOL_ALERT {
                ConnectError::Negotiation
            } else {
                ConnectError::Handshake
            }
        },
        HandshakeFailure::SessionRefused => ConnectError::Negotiation,
        HandshakeFailure::Other => ConnectError::Handshake,
    }
}

/// Why an operation on a registered connection or stream failed.
#[derive(Clone, Copy, PartialEq, Eq, Debug, Structural)]
pub enum TransportError {
    /// The connection or stream identifier is not registered.
    NotFound,
    /// The control stream did not open within the retry budget. Reported by
    /// a send on the control stream only.
    Unavailable,
    /// The writer's queue is full: transient back-pressure, try again later.
    QueueFull,
    /// The writer's task has ended; the stream takes no more commands.
    Closed,
    /// The identifier is already in use or lies outside the range it must
    /// come from.
    Conflict,
    /// Every stream identifier has been handed out.
    Exhausted,
    /// The transport failed to open a data stream, to write to it or to
    /// finish it.
    TransportFailure,
    /// The control stream was open and the transport failed to write to it.
    ControlWriteFailed,
}

impl TransportError {
    /// The status that reports this failure.
    pub open spec fn spec_code(self) -> int {
        match self {
            TransportError::NotFound => -1,
            TransportError::Unavailable => -2,
            TransportError::QueueFull => -3,
            TransportError::Closed => -4,
            TransportError::Conflict => -5,
            TransportError::Exhausted => -6,
            TransportError::TransportFailure => -2,
            TransportError::ControlWriteFailed => -7,
        }
    }

    /// The status that reports this failure.
    pub fn code(self) -> (status: i32)
        ensures
            status == self.spec_code(),
            status < 0,
    {
        match self {
            TransportError::NotFound => -1,
            TransportError::Unavailable => -2,
            TransportError::QueueFull => -3,
            TransportError::Closed => -4,
            TransportError::Conflict => -5,
            TransportError::Exhausted => -6,
            TransportError::TransportFailure => -2,
            TransportError::ControlWriteFailed => -7,
        }
    }
}

/// Whether two failures are the two that share a status: no operation
/// reports both, for the one comes from a send on the control stream only
/// and the other from the data streams only.
pub open spec fn share_status(a: TransportError, b: TransportError) -> bool {
    ||| a == TransportError::Unavailable && b == TransportError::TransportFailure
    ||| a == TransportError::TransportFailure && b == TransportError::Unavailable
}

/// Distinct failures are reported as distinct statuses, but for the two that
/// share one.
pub proof fn lemma_codes_distinct(
    a: ConnectError,
    b: ConnectError,
    c: TransportError,
    d: TransportError,
)
    ensures
        a != b ==> a.spec_code() != b.spec_code(),
        c != d ==> (c.spec_code() == d.spec_code() <==> share_status(c, d)),
{
}

/// Status of an operation that reports a size: the size itself (at most
/// `i64::MAX`, which larger sizes are reported as), or the failure's code.
pub open spec fn size_status(outcome: Result<usize, TransportError>) -> int {
    match outcome {
        Ok(size) => if size <= i64::MAX {
            size as int
        } else {
            i64::MAX as int
        },
        Err(error) => error.spec_code(),
    }
}

/// Status of an operation that reports a size.
pub fn status_of_size(outcome: Result<usize, TransportError>) -> (status: i64)
    ensures
        status == size_status(outcome),
        status >= 0 <==> outcome is Ok,
{
    match outcome {
        Ok(size) => {
            if size as u64 <= i64::MAX as u64 {
                size as i64
            } else {
                i64::MAX
            }
        },
        Err(error) => error.code() as i64,
    }
}

/// Status of an operation that reports an identifier: the identifier itself
/// (at most `i64::MAX`, which larger identifiers are reported as), or the
/// failure's code.
pub open spec fn id_status(outcome: Result<u64, TransportError>) -> int {
    match outcome {
        Ok(id) => if id <= i64::MAX {
            id as int
        } else {
            i64::MAX as int
        },
        Err(error) => error.spec_code(),
    }
}

/// Status of an operation that reports an identifier.
pub fn status_of_id(outcome: Result<u64, TransportError>) -> (status: i64)
    ensures
        status == id_status(outcome),
        status >= 0 <==> outcome is Ok,
{
    match outcome {
        Ok(id) => {
            if id <= i64::MAX as u64 {
                id as i64
            } else {
                i64::MAX
            }
        },
        Err(error) => error.code() as i64,
    }
}

/// Status of an operation that reports success only: 0, or the failure's
/// code.
pub fn status_of_unit(outcome: Result<(), TransportError>) -> (status: i32)
    ensures
        status == match outcome {
            Ok(_) => 0,
            Err(error) => error.spec_code(),
        },
        status == 0 <==> outcome is Ok,
{
    match outcome {
        Ok(_) => 0,
        Err(error) => error.code(),
    }
}

/// Status of a connect: 0, or the failure's code.
pub fn status_of_connect(outcome: Result<u64, ConnectError>) -> (status: i32)
    ensures
        status == match outcome {
            Ok(_) => 0,
            Err(error) => error.spec_code(),
        },
        status == 0 <==> outcome is Ok,
{
    match outcome {
        Ok(_) => 0,
        Err(error) => error.code(),
    }
}

} // verus!
