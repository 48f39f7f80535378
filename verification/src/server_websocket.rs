//! A byte stream over WebSocket messages: every write becomes a message, and
//! what is read is the messages one behind the other.
use vstd::prelude::*;

verus! {

/// A message of a WebSocket connection, by what it carries.
pub enum Packet {
    Text(String),
    Binary(Vec<u8>),
    Ping(Vec<u8>),
    Pong(Vec<u8>),
    /// The end of the connection, with the reason that was given for it.
    Close(Option<String>),
}

impl View for Packet {
    /// The bytes that the message carries.
    type V = Seq<u8>;

    open spec fn view(&self) -> Seq<u8> {
        match self {
            Packet::Text(string) => vstd::utf8::encode_utf8(string@),
            Packet::Binary(data) => data@,
            Packet::Ping(data) => data@,
            Packet::Pong(data) => data@,
            Packet::Close(None) => Seq::empty(),
            Packet::Close(Some(reason)) => vstd::utf8::encode_utf8(reason@),
        }
    }
}

impl Packet {
    /// Takes the bytes out of a message.
    pub fn into_data(self) -> (data: Vec<u8>)
        ensures
            data@ == self@,
            match self {
                Packet::Text(string) => data@ == vstd::utf8::encode_utf8(string@),
                Packet::Binary(bytes) => data@ == bytes@,
                Packet::Ping(bytes) => data@ == bytes@,
                Packet::Pong(bytes) => data@ == bytes@,
                Packet::Close(None) => data@.len() == 0,
                Packet::Close(Some(reason)) => data@ == vstd::utf8::encode_utf8(reason@),
            },
    {
        match self {
            Packet::Text(string) => string.as_str().as_bytes_vec(),
            Packet::Binary(data) => data,
            Packet::Ping(data) => data,
            Packet::Pong(data) => data,
            Packet::Close(None) => Vec::new(),
            Packet::Close(Some(reason)) => reason.as_str().as_bytes_vec(),
        }
    }
}

/// The message to send for bytes that are written, and how many of the bytes
/// that covers, which is all of them.
pub fn write_packet(buf: &[u8]) -> (res: (Packet, usize))
    ensures
        res.0 is Binary,
        res.0@ == buf@,
        res.0 matches Packet::Binary(data) && data@ == buf@,
        res.1 == buf@.len(),
{
    (Packet::Binary(vstd::slice::slice_to_vec(buf)), buf.len())
}

/// What to do once the connection has been asked for the next message.
pub enum Next<E> {
    /// Read again.
    Read,
    /// Report that there is nothing more to read.
    End,
    /// Report this error.
    Fail(E),
}

/// The message that is being read: its payload, and how much of it has been
/// read.
pub struct Reader {
    state: Option<(Vec<u8>, usize)>,
}

impl View for Reader {
    /// What is left of the message, if there is one.
    type V = Option<Seq<u8>>;

    closed spec fn view(&self) -> Option<Seq<u8>> {
        match self.state {
            Some((chunk, chunk_start)) => Some(chunk@.skip(chunk_start as int)),
            None => None,
        }
    }
}

/// How many of the bytes `pending` a read into `room` bytes gives.
pub open spec fn read_len(pending: Seq<u8>, room: nat) -> nat {
    if room < pending.len() {
        room
    } else {
        pending.len()
    }
}

/// What is left of `pending` after a read into `room` bytes. A message that
/// has been read to its end is given up.
pub open spec fn read_rest(pending: Seq<u8>, room: nat) -> Option<Seq<u8>> {
    if room < pending.len() {
        Some(pending.skip(room as int))
    } else {
        None
    }
}

impl Reader {
    /// No more of the message has been read than there is.
    pub closed spec fn wf(&self) -> bool {
        match self.state {
            Some((chunk, chunk_start)) => chunk_start <= chunk@.len(),
            None => true,
        }
    }

    /// No message.
    pub fn new() -> (res: Self)
        ensures
            res.wf(),
            res@ == None::<Seq<u8>>,
    {
        Reader { state: None }
    }

    /// Reads from the message into `buf`, as much as there is and as fits.
    /// Tells how much that is, or that a message is needed first.
    pub fn read(&mut self, buf: &mut [u8]) -> (res: Option<usize>)
        requires
            old(self).wf(),
        ensures
            final(self).wf(),
            match old(self)@ {
                None => {
                    &&& res == None::<usize>
                    &&& final(self)@ == None::<Seq<u8>>
                    &&& final(buf)@ == old(buf)@
                },
                Some(pending) => {
                    let len = read_len(pending, old(buf)@.len());
                    &&& res is Some
                    &&& res->Some_0 == len
                    &&& final(self)@ == read_rest(pending, old(buf)@.len())
                    &&& final(buf)@ == pending.take(len as int) + old(buf)@.skip(len as int)
                },
            },
            old(self)@ matches Some(pending) ==> {
                &&& res matches Some(len) && len <= pending.len() && len <= old(buf)@.len() && (len
                    == pending.len() || len == old(buf)@.len())
                &&& final(buf)@.len() == old(buf)@.len()
                &&& forall|i: int| 0 <= i < res->Some_0 ==> #[trigger] final(buf)@[i] == pending[i]
                &&& forall|i: int|
                    res->Some_0 <= i < old(buf)@.len() ==> #[trigger] final(buf)@[i]
                        == old(buf)@[i]
                &&& final(self)@ is None <==> res->Some_0 == pending.len()
                &&& final(self)@ matches Some(left) ==> left == pending.skip(res->Some_0 as int)
            },
    {
        let (len, done) = match &mut self.state {
            None => {
                return None;
            },
            Some((chunk, chunk_start)) => {
                let left = chunk.len() - *chunk_start;
                let room = buf.len();
                let len = if room < left {
                    room
                } else {
                    left
                };
                let start = *chunk_start;
                let mut i: usize = 0;
                while i < len
                    invariant
                        i <= len,
                        len <= old(buf)@.len(),
                        start + len <= chunk@.len() <= usize::MAX,
                        buf@ == chunk@.subrange(start as int, start + i) + old(buf)@.skip(i as int),
                    decreases len - i,
                {
                    buf[i] = chunk[start + i];
                    i = i + 1;
                }
                *chunk_start = start + len;
                (len, *chunk_start == chunk.len())
            },
        };
        if done {
            self.state = None;
        }
        Some(len)
    }

    /// Takes the next message of the connection, or learns that there is
    /// none, or none that could be received.
    pub fn on_next<E>(&mut self, next: Option<Result<Packet, E>>) -> (res: Next<E>)
        ensures
            final(self).wf(),
            match next {
                Some(Ok(chunk)) => {
                    &&& res == Next::<E>::Read
                    &&& final(self)@ == Some(chunk@)
                },
                Some(Err(err)) => {
                    &&& res == Next::Fail(err)
                    &&& final(self)@ == None::<Seq<u8>>
                },
                None => {
                    &&& res == Next::<E>::End
                    &&& final(self)@ == None::<Seq<u8>>
                },
            },
    {
        match next {
            Some(Ok(chunk)) => {
                let data = chunk.into_data();
                proof {
                    assert(data@.skip(0) =~= data@);
                }
                self.state = Some((data, 0));
                Next::Read
            },
            Some(Err(err)) => {
                self.state = None;
                Next::Fail(err)
            },
            None => {
                self.state = None;
                Next::End
            },
        }
    }
}

/// The bytes that a message carries: those of its text, of its data, or of the
/// reason for closing.
pub proof fn law_packet_carries_its_bytes(string: String, data: Vec<u8>)
    ensures
        Packet::Text(string)@ == vstd::utf8::encode_utf8(string@),
        Packet::Binary(data)@ == data@,
        Packet::Ping(data)@ == data@,
        Packet::Pong(data)@ == data@,
        Packet::Close(None)@ == Seq::<u8>::empty(),
        Packet::Close(Some(string))@ == vstd::utf8::encode_utf8(string@),
{
}

/// A read gives as much as there is and as fits, and gives the message up once
/// all of it has been read.
pub proof fn law_read_gives_what_fits(pending: Seq<u8>, room: nat)
    ensures
        read_len(pending, room) <= pending.len(),
        read_len(pending, room) <= room,
        read_len(pending, room) == pending.len() || read_len(pending, room) == room,
        read_rest(pending, room) is None <==> read_len(pending, room) == pending.len(),
        read_rest(pending, room) matches Some(left) ==> pending.take(
            read_len(pending, room) as int,
        ) + left == pending && left.len() > 0,
{
    if room < pending.len() {
        assert(pending.take(room as int) + pending.skip(room as int) =~= pending);
    }
}

} // verus!
