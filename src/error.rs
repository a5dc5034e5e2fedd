use vstd::prelude::*;
use vstd::string::StringExecFns;

verus! {

/// The closed set of failures that the client reports.
#[derive(Debug, Clone)]
pub enum AliceError {
    /// An operation needed a socket and none was open.
    NoConnection,
    /// The remote end closed the connection while a call was in flight.
    ConnectionClosed,
    /// Reading from or writing to the socket failed.
    TransportError(String),
    /// A frame did not decode, or did not belong to the call in flight.
    ResponseError,
    /// A frame of a kind that carries no call data arrived where data was expected.
    ProtocolViolation,
    /// The server answered the call with an explicit error message.
    RemoteError(String),
    /// Any other failure, described in words.
    Other(String),
}

impl AliceError {
    /// A one-line description of the failure.
    pub fn message(&self) -> (r: String)
        ensures
            r@ == self.spec_message(),
    {
        match self {
            AliceError::NoConnection => String::from_str("No connection"),
            AliceError::ConnectionClosed => String::from_str("Connection closed"),
            AliceError::TransportError(e) => String::from_str("Transport error: ").concat(e.as_str()),
            AliceError::ResponseError => String::from_str("Response error"),
            AliceError::ProtocolViolation => String::from_str("Invalid message"),
            AliceError::RemoteError(e) => String::from_str("Remote error: ").concat(e.as_str()),
            AliceError::Other(e) => String::from_str("Other error: ").concat(e.as_str()),
        }
    }

    pub open spec fn spec_message(&self) -> Seq<char> {
        match self {
            AliceError::NoConnection => "No connection"@,
            AliceError::ConnectionClosed => "Connection closed"@,
            AliceError::TransportError(e) => "Transport error: "@ + e@,
            AliceError::ResponseError => "Response error"@,
            AliceError::ProtocolViolation => "Invalid message"@,
            AliceError::RemoteError(e) => "Remote error: "@ + e@,
            AliceError::Other(e) => "Other error: "@ + e@,
        }
    }
}

} // verus!
