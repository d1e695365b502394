//! One status query, as the decisions around its transport: what is sent, and
//! what each thing that the transport can report makes of the query.
//!
//! A query sends one request and waits for one datagram or the deadline. It is
//! never repeated: whatever the transport reports first ends it.

use vstd::prelude::*;
use crate::codec::{
    decode_response,
    decoded,
    encode_request,
    request_frame,
    ProtocolError,
    StatusResponse,
    PROTOCOL_VERSION,
    REQUEST_LEN,
    STATUS_MODE,
};

verus! {

/// Milliseconds to wait for the response.
pub const RECEIVE_DEADLINE_MS: u64 = 2_500;

/// Room for the response, in bytes.
pub const RECEIVE_BUFFER_LEN: usize = 1_024;

/// Where a query stands.
#[derive(Clone, Copy, Debug, PartialEq, Eq, Structural)]
pub enum QueryState {
    AwaitingResponse,
    Done,
}

/// What the transport reports of a query.
#[derive(Clone, Debug, PartialEq, Eq)]
pub enum QueryEvent {
    /// No local endpoint could be opened.
    BindFailed,
    /// The request could not be sent.
    SendFailed,
    /// The deadline passed without a datagram.
    TimedOut,
    /// A datagram came in.
    Datagram(Vec<u8>),
}

/// Why a query gave no status.
#[derive(Clone, Copy, Debug, PartialEq, Eq, Structural)]
pub enum QueryError {
    BindFailed,
    SendFailed,
    Timeout,
    Protocol(ProtocolError),
}

/// What an event makes of a query that awaits its response: a datagram is
/// decoded, anything else is the failure that it reports.
pub open spec fn outcome_of(event: QueryEvent) -> Result<StatusResponse, QueryError> {
    match event {
        QueryEvent::BindFailed => Err(QueryError::BindFailed),
        QueryEvent::SendFailed => Err(QueryError::SendFailed),
        QueryEvent::TimedOut => Err(QueryError::Timeout),
        QueryEvent::Datagram(bytes) => match decoded(bytes@) {
            Ok(status) => Ok(status),
            Err(why) => Err(QueryError::Protocol(why)),
        },
    }
}

/// A status query.
#[derive(Clone, Copy, Debug, PartialEq, Eq, Structural)]
pub struct StatusQuery {
    pub state: QueryState,
}

impl StatusQuery {
    /// A query that has yet to hear from the transport.
    pub fn new() -> (query: StatusQuery)
        ensures
            query.state == QueryState::AwaitingResponse,
    {
        StatusQuery { state: QueryState::AwaitingResponse }
    }

    /// The request frame of the query.
    pub fn request(&self) -> (frame: [u8; REQUEST_LEN])
        ensures
            frame@ == request_frame(PROTOCOL_VERSION, STATUS_MODE),
    {
        encode_request(PROTOCOL_VERSION, STATUS_MODE)
    }

    /// Takes what the transport reports. The first report ends the query and
    /// gives its outcome; a query that has ended takes no further report.
    pub fn on_event(&mut self, event: &QueryEvent) -> (outcome: Option<
        Result<StatusResponse, QueryError>,
    >)
        ensures
            final(self).state == QueryState::Done,
            outcome == match old(self).state {
                QueryState::AwaitingResponse => Some(outcome_of(*event)),
                QueryState::Done => None,
            },
    {
        match self.state {
            QueryState::Done => None,
            QueryState::AwaitingResponse => {
                self.state = QueryState::Done;
                Some(
                    match event {
                        QueryEvent::BindFailed => Err(QueryError::BindFailed),
                        QueryEvent::SendFailed => Err(QueryError::SendFailed),
                        QueryEvent::TimedOut => Err(QueryError::Timeout),
                        QueryEvent::Datagram(bytes) => match decode_response(bytes.as_slice()) {
                            Ok(status) => Ok(status),
                            Err(why) => Err(QueryError::Protocol(why)),
                        },
                    },
                )
            },
        }
    }
}

} // verus!
