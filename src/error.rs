use vstd::prelude::*;

verus! {

/// The kind of an I/O failure reported by the byte stream.
#[derive(Clone, Copy, Debug, PartialEq, Eq, Structural)]
pub enum IoKind {
    ConnectionRefused,
    TimedOut,
    ConnectionReset,
    ConnectionAborted,
    NotConnected,
    BrokenPipe,
    WouldBlock,
    UnexpectedEof,
    Interrupted,
    Other,
}

pub open spec fn io_name_spec(k: IoKind) -> Seq<char> {
    match k {
        IoKind::ConnectionRefused => "connection refused"@,
        IoKind::TimedOut => "timed out"@,
        IoKind::ConnectionReset => "connection reset"@,
        IoKind::ConnectionAborted => "connection aborted"@,
        IoKind::NotConnected => "not connected"@,
        IoKind::BrokenPipe => "broken pipe"@,
        IoKind::WouldBlock => "operation would block"@,
        IoKind::UnexpectedEof => "unexpected end of file"@,
        IoKind::Interrupted => "operation interrupted"@,
        IoKind::Other => "other error"@,
    }
}

impl IoKind {
    /// A short description of the kind of failure.
    pub fn name(&self) -> (r: &'static str)
        ensures
            r@ == io_name_spec(*self),
    {
        match self {
            IoKind::ConnectionRefused => "connection refused",
            IoKind::TimedOut => "timed out",
            IoKind::ConnectionReset => "connection reset",
            IoKind::ConnectionAborted => "connection aborted",
            IoKind::NotConnected => "not connected",
            IoKind::BrokenPipe => "broken pipe",
            IoKind::WouldBlock => "operation would block",
            IoKind::UnexpectedEof => "unexpected end of file",
            IoKind::Interrupted => "operation interrupted",
            IoKind::Other => "other error",
        }
    }
}

/// Why one ranged fetch failed.
#[derive(Clone, Copy, Debug, PartialEq, Eq, Structural)]
pub enum FetchError {
    /// The target address resolved to no candidate.
    Resolve,
    /// The stream ended before any byte of a status line arrived.
    ClosedBeforeStatusLine,
    /// The stream ended inside the header block.
    ClosedDuringHeaders,
    /// The status line is empty, has a single field, or lacks the version prefix.
    MalformedStatusLine,
    /// The status code field is not an unsigned integer below 65536.
    InvalidStatusCode,
    /// Any other failure of the connection or the stream.
    Io(IoKind),
}

/// Connection-level conditions that a fresh attempt may overcome.
pub open spec fn io_kind_retryable(k: IoKind) -> bool {
    match k {
        IoKind::ConnectionRefused | IoKind::TimedOut | IoKind::ConnectionReset
        | IoKind::ConnectionAborted | IoKind::NotConnected | IoKind::BrokenPipe => true,
        _ => false,
    }
}

/// Retryable failures: connection-level conditions, the two early-close
/// conditions, and a failed address resolution. Everything else is fatal.
pub open spec fn retryable_spec(e: FetchError) -> bool {
    match e {
        FetchError::Resolve | FetchError::ClosedBeforeStatusLine
        | FetchError::ClosedDuringHeaders => true,
        FetchError::MalformedStatusLine | FetchError::InvalidStatusCode => false,
        FetchError::Io(k) => io_kind_retryable(k),
    }
}

impl FetchError {
    pub fn is_retryable(&self) -> (r: bool)
        ensures
            r == retryable_spec(*self),
    {
        match self {
            FetchError::Resolve | FetchError::ClosedBeforeStatusLine
            | FetchError::ClosedDuringHeaders => true,
            FetchError::MalformedStatusLine | FetchError::InvalidStatusCode => false,
            FetchError::Io(k) => match k {
                IoKind::ConnectionRefused | IoKind::TimedOut | IoKind::ConnectionReset
                | IoKind::ConnectionAborted | IoKind::NotConnected | IoKind::BrokenPipe => true,
                _ => false,
            },
        }
    }

    /// A human-readable description of the failure.
    pub fn message(&self) -> (r: String)
        ensures
            r@ == message_spec(*self),
    {
        match self {
            FetchError::Resolve => String::from_str("Failed to resolve address"),
            FetchError::ClosedBeforeStatusLine => String::from_str(
                "Connection closed before status line received",
            ),
            FetchError::ClosedDuringHeaders => String::from_str(
                "Connection closed during header reading",
            ),
            FetchError::MalformedStatusLine => String::from_str("Malformed status line"),
            FetchError::InvalidStatusCode => String::from_str("Invalid status code"),
            FetchError::Io(k) => {
                let mut m = String::from_str("I/O error on the connection: ");
                m.append(k.name());
                m
            },
        }
    }
}

pub open spec fn message_spec(e: FetchError) -> Seq<char> {
    match e {
        FetchError::Resolve => "Failed to resolve address"@,
        FetchError::ClosedBeforeStatusLine => "Connection closed before status line received"@,
        FetchError::ClosedDuringHeaders => "Connection closed during header reading"@,
        FetchError::MalformedStatusLine => "Malformed status line"@,
        FetchError::InvalidStatusCode => "Invalid status code"@,
        FetchError::Io(k) => "I/O error on the connection: "@ + io_name_spec(k),
    }
}

} // verus!
