//! Byte layouts of everything that crosses a connection.
//!
//! All integers travel in big-endian order. A payload is always preceded by
//! its length, so that a reader can take exactly one frame off a stream.
use vstd::prelude::*;

use crate::rpc::{Error, Message};

verus! {

/// The largest payload that a frame with a two-byte length can carry.
pub const MAX_PAYLOAD: usize = 65535;

/// The channel number that marks a frame as an item of a running upload.
pub const UPLOAD_CHANNEL: u32 = 0xffff_ffff;

/// The number that a byte string denotes, most significant byte first.
pub open spec fn be_value(s: Seq<u8>) -> nat
    decreases s.len(),
{
    if s.len() == 0 {
        0
    } else {
        be_value(s.drop_last()) * 256 + s.last() as nat
    }
}

/// The last `width` base-256 digits of `x`, most significant first.
pub open spec fn be_bytes(x: nat, width: nat) -> Seq<u8>
    decreases width,
{
    if width == 0 {
        Seq::empty()
    } else {
        be_bytes(x / 256, (width - 1) as nat).push((x % 256) as u8)
    }
}

/// How many numbers fit in `width` bytes.
pub open spec fn pow256(width: nat) -> nat
    decreases width,
{
    if width == 0 {
        1
    } else {
        256 * pow256((width - 1) as nat)
    }
}

/// A number is written out in as many bytes as asked for.
pub proof fn lemma_be_bytes_len(x: nat, width: nat)
    ensures
        be_bytes(x, width).len() == width,
    decreases width,
{
    if width > 0 {
        lemma_be_bytes_len(x / 256, (width - 1) as nat);
    }
}

/// Reading back the bytes of a number that fits gives the number.
pub proof fn lemma_be_roundtrip(x: nat, width: nat)
    requires
        x < pow256(width),
    ensures
        be_value(be_bytes(x, width)) == x,
        be_bytes(x, width).len() == width,
    decreases width,
{
    if width > 0 {
        let s = be_bytes(x, width);
        lemma_be_bytes_len(x / 256, (width - 1) as nat);
        lemma_be_roundtrip(x / 256, (width - 1) as nat);
        assert(s.drop_last() =~= be_bytes(x / 256, (width - 1) as nat));
    }
}

/// A byte string denotes a number that fits in as many bytes.
pub proof fn lemma_be_value_bound(s: Seq<u8>)
    ensures
        be_value(s) < pow256(s.len()),
    decreases s.len(),
{
    if s.len() > 0 {
        lemma_be_value_bound(s.drop_last());
    }
}

/// Writing out the number that a byte string denotes gives the byte string.
pub proof fn lemma_be_value_roundtrip(s: Seq<u8>)
    ensures
        be_bytes(be_value(s), s.len()) =~= s,
    decreases s.len(),
{
    if s.len() > 0 {
        lemma_be_value_roundtrip(s.drop_last());
        let high = be_value(s.drop_last());
        let low = s.last() as nat;
        assert((high * 256 + low) / 256 == high && (high * 256 + low) % 256 == low);
        assert(s.drop_last().push(s.last()) =~= s);
    }
}

/// How many numbers fit in two, four and eight bytes.
pub proof fn lemma_pow256_values()
    ensures
        pow256(2) == 0x1_0000,
        pow256(4) == 0x1_0000_0000,
        pow256(8) == 0x1_0000_0000_0000_0000,
{
    reveal_with_fuel(pow256, 9);
}

/// Appends the last `width` big-endian bytes of `x`.
fn push_be(buf: &mut Vec<u8>, x: u64, width: usize)
    ensures
        final(buf)@ == old(buf)@ + be_bytes(x as nat, width as nat),
    decreases width,
{
    if width > 0 {
        push_be(buf, x / 256, width - 1);
        buf.push((x % 256) as u8);
        proof {
            assert(buf@ =~= old(buf)@ + be_bytes(x as nat, width as nat));
        }
    } else {
        proof {
            assert(buf@ =~= old(buf)@ + be_bytes(x as nat, width as nat));
        }
    }
}

/// Reads the big-endian number in the bytes from `from` up to `to`.
fn read_be(bytes: &[u8], from: usize, to: usize) -> (x: u64)
    requires
        from <= to <= bytes@.len(),
        to - from <= 8,
    ensures
        x == be_value(bytes@.subrange(from as int, to as int)),
{
    let mut x: u64 = 0;
    let mut i: usize = from;
    proof {
        lemma_pow256_values();
        assert(bytes@.subrange(from as int, from as int).len() == 0);
    }
    while i < to
        invariant
            from <= i <= to <= bytes@.len(),
            to - from <= 8,
            x == be_value(bytes@.subrange(from as int, i as int)),
            pow256(8) == 0x1_0000_0000_0000_0000,
        decreases to - i,
    {
        let ghost upto = bytes@.subrange(from as int, i + 1);
        proof {
            assert(upto.drop_last() =~= bytes@.subrange(from as int, i as int));
            lemma_be_value_bound(upto);
            lemma_pow256_monotone(upto.len(), 8);
        }
        x = x * 256 + bytes[i] as u64;
        i += 1;
    }
    x
}

/// More bytes hold no fewer numbers.
proof fn lemma_pow256_monotone(a: nat, b: nat)
    requires
        a <= b,
    ensures
        pow256(a) <= pow256(b),
        1 <= pow256(a),
    decreases b,
{
    if a < b {
        lemma_pow256_monotone(a, (b - 1) as nat);
    } else if b > 0 {
        lemma_pow256_monotone((a - 1) as nat, (b - 1) as nat);
    }
}

// ---------------------------------------------------------------------
// Frames on a connection that carries many exchanges
// ---------------------------------------------------------------------

/// A request: two bytes of length, four of channel, four of message number,
/// then the payload.
pub open spec fn request_frame(channel_id: u32, msg_id: u32, data: Seq<u8>) -> Seq<u8> {
    be_bytes(data.len(), 2) + be_bytes(channel_id as nat, 4) + be_bytes(msg_id as nat, 4) + data
}

/// A reply: eight bytes of length, four of message number, then the payload.
pub open spec fn response_frame(msg_id: u32, msg: Seq<u8>) -> Seq<u8> {
    be_bytes(msg.len(), 8) + be_bytes(msg_id as nat, 4) + msg
}

/// A request in the layout with an eight-byte length: length, channel,
/// message number, payload.
pub open spec fn long_request_frame(channel_id: u32, msg_id: u32, msg: Seq<u8>) -> Seq<u8> {
    be_bytes(msg.len(), 8) + be_bytes(channel_id as nat, 4) + be_bytes(msg_id as nat, 4) + msg
}

// ---------------------------------------------------------------------
// Frames on a stream that carries a single exchange
// ---------------------------------------------------------------------

/// A request that opens a stream of its own: two bytes of length, four of
/// channel, then the payload.
pub open spec fn stream_request_frame(channel_id: u32, data: Seq<u8>) -> Seq<u8> {
    be_bytes(data.len(), 2) + be_bytes(channel_id as nat, 4) + data
}

/// A reply on a stream of its own: eight bytes of length, then the payload.
pub open spec fn stream_response_frame(msg: Seq<u8>) -> Seq<u8> {
    be_bytes(msg.len(), 8) + msg
}

/// An upload item on a stream of its own: two bytes of length, then the
/// payload.
pub open spec fn stream_item_frame(data: Seq<u8>) -> Seq<u8> {
    be_bytes(data.len(), 2) + data
}

/// The length that a reader takes from an eight-byte length field: the
/// number in it, cut down to the width of a machine word.
pub open spec fn word_len(field: Seq<u8>) -> nat {
    (be_value(field) as u64) as usize as nat
}

// ---------------------------------------------------------------------
// Headers
// ---------------------------------------------------------------------

/// What the ten bytes in front of a request's payload say.
#[derive(Clone, Copy, Debug, PartialEq, Eq, Structural)]
pub struct RequestHeader {
    pub len: usize,
    pub channel_id: u32,
    pub msg_id: u32,
}

/// What the twelve bytes in front of a reply's payload say.
#[derive(Clone, Copy, Debug, PartialEq, Eq, Structural)]
pub struct ResponseHeader {
    pub len: usize,
    pub msg_id: u32,
}

/// What the six bytes in front of a single-exchange request's payload say.
#[derive(Clone, Copy, Debug, PartialEq, Eq, Structural)]
pub struct StreamRequestHeader {
    pub len: usize,
    pub channel_id: u32,
}

impl RequestHeader {
    /// The header that ten bytes denote.
    pub open spec fn denoted(h: Seq<u8>) -> RequestHeader {
        RequestHeader {
            len: be_value(h.subrange(0, 2)) as usize,
            channel_id: be_value(h.subrange(2, 6)) as u32,
            msg_id: be_value(h.subrange(6, 10)) as u32,
        }
    }

    /// Takes the header apart.
    pub fn parse(h: &[u8; 10]) -> (header: RequestHeader)
        ensures
            header == RequestHeader::denoted(h@),
            header.len <= MAX_PAYLOAD,
            header.len == be_value(h@.subrange(0, 2)),
            header.channel_id == be_value(h@.subrange(2, 6)),
            header.msg_id == be_value(h@.subrange(6, 10)),
    {
        proof {
            lemma_pow256_values();
            lemma_be_value_bound(h@.subrange(0, 2));
            lemma_be_value_bound(h@.subrange(2, 6));
            lemma_be_value_bound(h@.subrange(6, 10));
        }
        let bytes = h.as_slice();
        let len = read_be(bytes, 0, 2) as usize;
        let channel_id = read_be(bytes, 2, 6) as u32;
        let msg_id = read_be(bytes, 6, 10) as u32;
        RequestHeader { len, channel_id, msg_id }
    }

    /// The message that the header and the payload behind it make up, with
    /// its number.
    pub fn with_body(self, msg: Vec<u8>) -> (res: (Message, u32))
        ensures
            res.0.channel_id == self.channel_id,
            res.0.msg == msg,
            res.1 == self.msg_id,
    {
        (Message { channel_id: self.channel_id, msg }, self.msg_id)
    }
}

impl ResponseHeader {
    /// The header that twelve bytes denote.
    pub open spec fn denoted(h: Seq<u8>) -> ResponseHeader {
        ResponseHeader {
            len: word_len(h.subrange(0, 8)) as usize,
            msg_id: be_value(h.subrange(8, 12)) as u32,
        }
    }

    /// Takes the header apart.
    pub fn parse(h: &[u8; 12]) -> (header: ResponseHeader)
        ensures
            header == ResponseHeader::denoted(h@),
            header.len == word_len(h@.subrange(0, 8)),
            header.msg_id == be_value(h@.subrange(8, 12)),
    {
        proof {
            lemma_pow256_values();
            lemma_be_value_bound(h@.subrange(8, 12));
        }
        let bytes = h.as_slice();
        let len = read_be(bytes, 0, 8) as usize;
        let msg_id = read_be(bytes, 8, 12) as u32;
        ResponseHeader { len, msg_id }
    }
}

impl StreamRequestHeader {
    /// The header that six bytes denote.
    pub open spec fn denoted(h: Seq<u8>) -> StreamRequestHeader {
        StreamRequestHeader {
            len: be_value(h.subrange(0, 2)) as usize,
            channel_id: be_value(h.subrange(2, 6)) as u32,
        }
    }

    /// Takes the header apart.
    pub fn parse(h: &[u8; 6]) -> (header: StreamRequestHeader)
        ensures
            header == StreamRequestHeader::denoted(h@),
            header.len <= MAX_PAYLOAD,
            header.len == be_value(h@.subrange(0, 2)),
            header.channel_id == be_value(h@.subrange(2, 6)),
    {
        proof {
            lemma_pow256_values();
            lemma_be_value_bound(h@.subrange(0, 2));
            lemma_be_value_bound(h@.subrange(2, 6));
        }
        let bytes = h.as_slice();
        let len = read_be(bytes, 0, 2) as usize;
        let channel_id = read_be(bytes, 2, 6) as u32;
        StreamRequestHeader { len, channel_id }
    }

    /// The message that the header and the payload behind it make up.
    pub fn with_body(self, msg: Vec<u8>) -> (res: Message)
        ensures
            res.channel_id == self.channel_id,
            res.msg == msg,
    {
        Message { channel_id: self.channel_id, msg }
    }
}

/// The payload length in the eight bytes in front of a single-exchange reply.
pub fn parse_stream_response_len(h: &[u8; 8]) -> (len: usize)
    ensures
        len == word_len(h@),
{
    proof {
        assert(h@.subrange(0, 8) =~= h@);
    }
    read_be(h.as_slice(), 0, 8) as usize
}

/// The payload length in the two bytes in front of a single-exchange upload
/// item.
pub fn parse_stream_item_len(h: &[u8; 2]) -> (len: usize)
    ensures
        len == be_value(h@),
        len <= MAX_PAYLOAD,
{
    proof {
        lemma_pow256_values();
        lemma_be_value_bound(h@);
        assert(h@.subrange(0, 2) =~= h@);
    }
    read_be(h.as_slice(), 0, 2) as usize
}

// ---------------------------------------------------------------------
// Writing frames
// ---------------------------------------------------------------------

/// Lays out a request, unless its payload is too long for a two-byte length.
pub fn encode_request(channel_id: u32, msg_id: u32, data: &[u8]) -> (res: Result<Vec<u8>, Error>)
    ensures
        match res {
            Ok(frame) => data@.len() <= MAX_PAYLOAD && frame@ == request_frame(
                channel_id,
                msg_id,
                data@,
            ),
            Err(e) => data@.len() > MAX_PAYLOAD && e == Error::MessageTooBig,
        },
{
    if data.len() > MAX_PAYLOAD {
        return Err(Error::MessageTooBig);
    }
    let mut frame: Vec<u8> = Vec::with_capacity(data.len() + 10);
    push_be(&mut frame, data.len() as u64, 2);
    push_be(&mut frame, channel_id as u64, 4);
    push_be(&mut frame, msg_id as u64, 4);
    frame.extend_from_slice(data);
    proof {
        assert(frame@ =~= request_frame(channel_id, msg_id, data@));
    }
    Ok(frame)
}

/// Lays out a reply.
pub fn encode_response(msg_id: u32, msg: &[u8]) -> (frame: Vec<u8>)
    ensures
        frame@ == response_frame(msg_id, msg@),
{
    let mut frame: Vec<u8> = Vec::new();
    push_be(&mut frame, msg.len() as u64, 8);
    push_be(&mut frame, msg_id as u64, 4);
    frame.extend_from_slice(msg);
    proof {
        assert(frame@ =~= response_frame(msg_id, msg@));
    }
    frame
}

/// Lays out a request in the layout with an eight-byte length.
pub fn encode_long_request(channel_id: u32, msg_id: u32, msg: &[u8]) -> (frame: Vec<u8>)
    ensures
        frame@ == long_request_frame(channel_id, msg_id, msg@),
{
    let mut frame: Vec<u8> = Vec::new();
    push_be(&mut frame, msg.len() as u64, 8);
    push_be(&mut frame, channel_id as u64, 4);
    push_be(&mut frame, msg_id as u64, 4);
    frame.extend_from_slice(msg);
    proof {
        assert(frame@ =~= long_request_frame(channel_id, msg_id, msg@));
    }
    frame
}

/// Lays out a request that opens a stream of its own, unless its payload is
/// too long for a two-byte length.
pub fn encode_stream_request(channel_id: u32, data: &[u8]) -> (res: Result<Vec<u8>, Error>)
    ensures
        match res {
            Ok(frame) => data@.len() <= MAX_PAYLOAD && frame@ == stream_request_frame(
                channel_id,
                data@,
            ),
            Err(e) => data@.len() > MAX_PAYLOAD && e == Error::MessageTooBig,
        },
{
    if data.len() > MAX_PAYLOAD {
        return Err(Error::MessageTooBig);
    }
    let mut frame: Vec<u8> = Vec::with_capacity(data.len() + 6);
    push_be(&mut frame, data.len() as u64, 2);
    push_be(&mut frame, channel_id as u64, 4);
    frame.extend_from_slice(data);
    proof {
        assert(frame@ =~= stream_request_frame(channel_id, data@));
    }
    Ok(frame)
}

/// Lays out a reply on a stream of its own.
pub fn encode_stream_response(msg: &[u8]) -> (frame: Vec<u8>)
    ensures
        frame@ == stream_response_frame(msg@),
{
    let mut frame: Vec<u8> = Vec::new();
    push_be(&mut frame, msg.len() as u64, 8);
    frame.extend_from_slice(msg);
    proof {
        assert(frame@ =~= stream_response_frame(msg@));
    }
    frame
}

} // verus!
