//! What a client's connection task is asked to do.
//!
//! The type parameters stand for the handles that come with an operation:
//! `S` takes the answers to a request, `M` takes the message number that a
//! request was given, and `U` is told once an upload item has been written.
use vstd::prelude::*;

use crate::rpc::Error;

verus! {

/// An answer has arrived.
pub struct Recv {
    pub msg_id: u32,
    pub data: Result<Vec<u8>, Error>,
}

/// A timer has run out.
pub struct Timeout {
    pub timeout_id: u128,
}

/// A request that gets one answer.
pub struct Req<S> {
    pub sender: S,
    pub channel_id: u32,
    pub data: Vec<u8>,
}

/// A request whose number has to be told to the requester, and which may get
/// many answers.
pub struct ReqNoCall<S, M> {
    pub sender: S,
    pub msg_id_sender: M,
    pub channel_id: u32,
    pub data: Vec<u8>,
}

/// An item of a running upload.
pub struct Uploading<U> {
    pub upload_ok_tx: U,
    pub data: Vec<u8>,
    pub msg_id: u32,
}

} // verus!
