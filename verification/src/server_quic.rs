//! The server of a QUIC connection.
use vstd::prelude::*;

verus! {

/// Why no more streams come on a connection.
#[derive(Clone, Copy, Debug, PartialEq, Eq, Structural)]
pub enum StreamEnd {
    /// There are no more.
    Ended,
    /// The other end has closed the connection.
    ApplicationClosed,
    /// The connection has failed.
    Failed,
}

/// What is left to do for a connection.
#[derive(Clone, Copy, Debug, PartialEq, Eq, Structural)]
pub enum ConnectionEnd {
    /// Tell the handler of closed connections.
    TellClosed,
    /// Nothing.
    Done,
    /// Report the failure.
    Fail,
}

/// Decides what the end of the streams of a connection comes to.
pub fn on_stream_end(end: StreamEnd) -> (res: ConnectionEnd)
    ensures
        res == match end {
            StreamEnd::Ended => ConnectionEnd::TellClosed,
            StreamEnd::ApplicationClosed => ConnectionEnd::Done,
            StreamEnd::Failed => ConnectionEnd::Fail,
        },
{
    match end {
        StreamEnd::Ended => ConnectionEnd::TellClosed,
        StreamEnd::ApplicationClosed => ConnectionEnd::Done,
        StreamEnd::Failed => ConnectionEnd::Fail,
    }
}

} // verus!
