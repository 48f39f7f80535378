//! The vocabulary of the protocol: errors, messages, and the traits by which
//! a request type says what it is.
use vstd::prelude::*;

verus! {

/// Everything that can go wrong with an exchange.
#[derive(Clone, Debug)]
pub enum Error {
    DeserializeFaild,
    SerializeFaild,
    ConnectionDroped,
    SubscribeDroped,
    TransportError,
    ConnectionReset,
    UnknownChannelID,
    MessageTooBig,
    ConnectionFailed,
    Timeout,
    NoConnected,
    VerifyFailed,
    BincodeError,
    IoError(String),
}

/// A request type: the channel that serves it, the type of its answer, and
/// how both travel as bytes. The four codec functions give `None` where the
/// codec fails.
pub trait RPC: Sized + Send + Sync + 'static {
    type Return: Send + Sync + 'static;

    fn rpc_channel() -> u32;

    fn encode(&self) -> Option<Vec<u8>>;

    fn decode(bytes: &[u8]) -> Option<Self>;

    fn encode_return(ret: &Self::Return) -> Option<Vec<u8>>;

    fn decode_return(bytes: &[u8]) -> Option<Self::Return>;
}

/// A request that can be refused before it is carried out. A refusal comes
/// with the answer to give in place of carrying the request out.
pub trait Verify: RPC {
    fn verify(&self) -> (res: Result<(), Self::Return>)
        default_ensures
            res == Ok::<(), Self::Return>(()),
    {
        Ok(())
    }

    /// The request itself if it passes, the answer to its refusal if not.
    fn verify_result(self) -> (res: Result<Self, Self::Return>)
        default_ensures
            match res {
                Ok(passed) => passed == self && call_ensures(Self::verify, (&self,), Ok(())),
                Err(ret) => call_ensures(Self::verify, (&self,), Err(ret)),
            },
    {
        let verdict = self.verify();
        match verdict {
            Ok(unit) => {
                proof {
                    assert(verdict == Ok::<(), Self::Return>(()));
                }
                Ok(self)
            },
            Err(ret) => Err(ret),
        }
    }
}

/// A request that is answered once.
pub trait Call: RPC + Verify {

}

/// A request that is answered any number of times.
pub trait Subscribe: RPC + Verify {

}

/// A request that is followed by a stream of items and answered once.
pub trait Upload: RPC + Verify {
    type UploadStream: Send + Sync + 'static;

    fn encode_item(item: &Self::UploadStream) -> Option<Vec<u8>>;

    fn decode_item(bytes: &[u8]) -> Option<Self::UploadStream>;
}

/// A request as a server receives it.
#[derive(Debug)]
pub struct Message {
    pub channel_id: u32,
    pub msg: Vec<u8>,
}

/// An answer as a server sends it.
#[derive(Debug)]
pub struct Response {
    pub msg: Vec<u8>,
}

} // verus!
