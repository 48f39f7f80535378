//! A client over any connection that calls back: what to send for a request,
//! and what to hand to the callback.
use vstd::prelude::*;

use crate::exchange;
use crate::rpc::{Error, Verify, RPC};

verus! {

/// A connection that takes callbacks. `S` is the handler of the answers to
/// one request.
pub trait Connect<S> {
    fn is_connected(&self) -> bool;

    /// Writes `bytes`, then calls `cb` with the outcome.
    fn send<F: FnOnce(&Self, Result<(), Error>) + 'static + Send>(&self, bytes: &[u8], cb: F);

    /// Keeps `f` as a handler under a new message number, then calls `cb`
    /// with the number.
    fn on_msg<F2: FnOnce(&Self, u32) + 'static + Send>(&self, f: S, cb: F2);

    /// Gives up the handler kept under `msg_id`, and calls `f` with it.
    fn close_msg_handle<F: FnOnce(Option<S>) + 'static + Send>(&self, msg_id: u32, f: F);
}

/// A connection whose handlers stay on one thread.
pub trait ConnectNoSend<S: 'static>: Connect<S> {

}

/// A connection whose handlers may move between threads.
pub trait ConnectSend<S: Send + 'static>: Connect<S> {

}

/// The error type of `std::io`.
#[verifier::external_type_specification]
#[verifier::external_body]
pub struct ExIoError(std::io::Error);

/// What is left of a failed read: the text of the error.
pub fn from_io_result(src: std::io::Error) -> (res: Error)
    ensures
        res matches Error::IoError(text) && vstd::string::to_string_from_display_ensures::<
            std::io::Error,
        >(&src, text),
{
    Error::IoError(src.to_string())
}

/// Prepares a request: tells for which channel to send which payload, or why
/// there is nothing to send. `connected` tells whether there is a connection;
/// without one the request is not checked, and one that is refused is not
/// encoded.
pub fn prepare<R: Verify>(param: &R, connected: bool) -> (res: Result<(u32, Vec<u8>), Error>)
    ensures
        match res {
            Err(Error::NoConnected) => !connected,
            Err(Error::VerifyFailed) => {
                &&& connected
                &&& exists|ret: R::Return| call_ensures(R::verify, (param,), Err(ret))
            },
            Err(Error::BincodeError) => {
                &&& connected
                &&& call_ensures(R::verify, (param,), Ok(()))
                &&& call_ensures(R::encode, (param,), None)
            },
            Err(_) => false,
            Ok((channel_id, msg)) => {
                &&& connected
                &&& call_ensures(R::verify, (param,), Ok(()))
                &&& exchange::encoded(param, channel_id, msg)
            },
        },
{
    if !connected {
        return Err(Error::NoConnected);
    }
    let verdict = param.verify();
    match verdict {
        Err(ret) => {
            proof {
                assert(call_ensures(R::verify, (param,), Err(ret)));
            }
            Err(Error::VerifyFailed)
        },
        Ok(unit) => {
            proof {
                assert(verdict == Ok::<(), R::Return>(()));
            }
            match param.encode() {
                None => Err(Error::BincodeError),
                Some(msg) => Ok((R::rpc_channel(), msg)),
            }
        },
    }
}

/// What to hand to the callback of a request, from what its handler was
/// called with.
pub fn received<R: RPC>(res: Result<Vec<u8>, Error>) -> (param: Result<R::Return, Error>)
    ensures
        match res {
            Err(e) => param == Err::<R::Return, Error>(e),
            Ok(bytes) => exists|b: &[u8], r: Option<R::Return>|
                {
                    &&& b@ == bytes@
                    &&& #[trigger] call_ensures(R::decode_return, (b,), r)
                    &&& match r {
                        Some(ret) => param == Ok::<R::Return, Error>(ret),
                        None => param == Err::<R::Return, Error>(Error::BincodeError),
                    }
                },
        },
{
    match res {
        Err(e) => Err(e),
        Ok(bytes) => {
            let b = bytes.as_slice();
            let r = R::decode_return(b);
            proof {
                assert(call_ensures(R::decode_return, (b,), r));
            }
            match r {
                Some(ret) => Ok(ret),
                None => Err(Error::BincodeError),
            }
        },
    }
}

} // verus!
