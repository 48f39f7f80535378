//! What a reader gets back of what a writer wrote.
use vstd::prelude::*;

use crate::wire;
use crate::wire::{RequestHeader, ResponseHeader, StreamRequestHeader, MAX_PAYLOAD};

verus! {

/// A request as it travels: channel, message number, payload.
pub struct RequestParts {
    pub channel_id: u32,
    pub msg_id: u32,
    pub data: Seq<u8>,
}

/// A reply as it travels: message number, payload.
pub struct ResponseParts {
    pub msg_id: u32,
    pub msg: Seq<u8>,
}

/// Taking one request off the front of a stream: ten bytes of header, then as
/// many bytes as it announces. Also gives what is left of the stream.
/// `None` while the stream does not hold a whole request.
pub open spec fn take_request(stream: Seq<u8>) -> Option<(RequestParts, Seq<u8>)> {
    if stream.len() < 10 {
        None
    } else {
        let h = RequestHeader::denoted(stream.take(10));
        if stream.len() < 10 + h.len {
            None
        } else {
            Some(
                (
                    RequestParts {
                        channel_id: h.channel_id,
                        msg_id: h.msg_id,
                        data: stream.subrange(10, 10 + h.len),
                    },
                    stream.skip(10 + h.len),
                ),
            )
        }
    }
}

/// Taking one reply off the front of a stream.
pub open spec fn take_response(stream: Seq<u8>) -> Option<(ResponseParts, Seq<u8>)> {
    if stream.len() < 12 {
        None
    } else {
        let h = ResponseHeader::denoted(stream.take(12));
        if stream.len() < 12 + h.len {
            None
        } else {
            Some(
                (
                    ResponseParts { msg_id: h.msg_id, msg: stream.subrange(12, 12 + h.len) },
                    stream.skip(12 + h.len),
                ),
            )
        }
    }
}

/// Taking a single-exchange request (channel and payload) off the front of a
/// stream.
pub open spec fn take_stream_request(stream: Seq<u8>) -> Option<((u32, Seq<u8>), Seq<u8>)> {
    if stream.len() < 6 {
        None
    } else {
        let h = StreamRequestHeader::denoted(stream.take(6));
        if stream.len() < 6 + h.len {
            None
        } else {
            Some(((h.channel_id, stream.subrange(6, 6 + h.len)), stream.skip(6 + h.len)))
        }
    }
}

/// Taking a single-exchange reply off the front of a stream.
pub open spec fn take_stream_response(stream: Seq<u8>) -> Option<(Seq<u8>, Seq<u8>)> {
    if stream.len() < 8 {
        None
    } else {
        let len = wire::word_len(stream.take(8));
        if stream.len() < 8 + len {
            None
        } else {
            Some((stream.subrange(8, 8 + len as int), stream.skip(8 + len as int)))
        }
    }
}

/// Taking a single-exchange upload item off the front of a stream.
pub open spec fn take_stream_item(stream: Seq<u8>) -> Option<(Seq<u8>, Seq<u8>)> {
    if stream.len() < 2 {
        None
    } else {
        let len = wire::be_value(stream.take(2));
        if stream.len() < 2 + len {
            None
        } else {
            Some((stream.subrange(2, 2 + len as int), stream.skip(2 + len as int)))
        }
    }
}

// ---------------------------------------------------------------------
// Byte by byte
// ---------------------------------------------------------------------

/// A payload with a two-byte length has at most 65535 bytes, and the upload
/// channel has the highest number.
pub proof fn law_limits()
    ensures
        MAX_PAYLOAD == 65535,
        wire::UPLOAD_CHANNEL == 4294967295u32,
{
}

/// A number is written with its most significant byte first.
pub proof fn law_numbers_are_big_endian(x: nat)
    ensures
        wire::be_bytes(x, 2) == seq![((x / 0x100) % 0x100) as u8, (x % 0x100) as u8],
        wire::be_bytes(x, 4) == seq![
            ((x / 0x100_0000) % 0x100) as u8,
            ((x / 0x1_0000) % 0x100) as u8,
            ((x / 0x100) % 0x100) as u8,
            (x % 0x100) as u8,
        ],
        wire::be_bytes(x, 8) == seq![
            ((x / 0x100_0000_0000_0000) % 0x100) as u8,
            ((x / 0x1_0000_0000_0000) % 0x100) as u8,
            ((x / 0x100_0000_0000) % 0x100) as u8,
            ((x / 0x1_0000_0000) % 0x100) as u8,
            ((x / 0x100_0000) % 0x100) as u8,
            ((x / 0x1_0000) % 0x100) as u8,
            ((x / 0x100) % 0x100) as u8,
            (x % 0x100) as u8,
        ],
{
    reveal_with_fuel(wire::be_bytes, 9);
    let x1 = x / 0x100;
    let x2 = x1 / 0x100;
    let x3 = x2 / 0x100;
    let x4 = x3 / 0x100;
    let x5 = x4 / 0x100;
    let x6 = x5 / 0x100;
    let x7 = x6 / 0x100;
    assert(x2 == x / 0x1_0000 && x3 == x / 0x100_0000 && x4 == x / 0x1_0000_0000 && x5 == x
        / 0x100_0000_0000 && x6 == x / 0x1_0000_0000_0000 && x7 == x / 0x100_0000_0000_0000);
    assert(wire::be_bytes(x, 2) =~= seq![(x1 % 0x100) as u8, (x % 0x100) as u8]);
    assert(wire::be_bytes(x, 4) =~= seq![
        (x3 % 0x100) as u8,
        (x2 % 0x100) as u8,
        (x1 % 0x100) as u8,
        (x % 0x100) as u8,
    ]);
    assert(wire::be_bytes(x, 8) =~= seq![
        (x7 % 0x100) as u8,
        (x6 % 0x100) as u8,
        (x5 % 0x100) as u8,
        (x4 % 0x100) as u8,
        (x3 % 0x100) as u8,
        (x2 % 0x100) as u8,
        (x1 % 0x100) as u8,
        (x % 0x100) as u8,
    ]);
}

/// A number is read with its most significant byte first.
pub proof fn law_numbers_are_read_big_endian(s: Seq<u8>)
    ensures
        s.len() == 2 ==> wire::be_value(s) == s[0] * 0x100 + s[1],
        s.len() == 4 ==> wire::be_value(s) == s[0] * 0x100_0000 + s[1] * 0x1_0000 + s[2] * 0x100
            + s[3],
        s.len() == 8 ==> wire::be_value(s) == s[0] * 0x100_0000_0000_0000 + s[1]
            * 0x1_0000_0000_0000 + s[2] * 0x100_0000_0000 + s[3] * 0x1_0000_0000 + s[4]
            * 0x100_0000 + s[5] * 0x1_0000 + s[6] * 0x100 + s[7],
        s.len() == 8 && wire::be_value(s) <= usize::MAX ==> wire::word_len(s) == wire::be_value(s),
        s.len() == 8 && usize::BITS == 64 ==> wire::word_len(s) == wire::be_value(s),
        s.len() == 8 && usize::BITS == 32 ==> wire::word_len(s) == wire::be_value(s)
            % 0x1_0000_0000,
{
    reveal_with_fuel(wire::be_value, 9);
    if s.len() == 8 {
        wire::lemma_pow256_values();
        wire::lemma_be_value_bound(s);
        let x = wire::be_value(s) as u64;
        assert(usize::BITS == 32 ==> x as usize == x % 0x1_0000_0000) by (bit_vector);
        assert(usize::BITS == 64 ==> x as usize == x) by (bit_vector);
    }
}

/// Where the bytes of a request stand: two of length, four of channel, four of
/// number, and the payload.
pub proof fn law_request_bytes(channel_id: u32, msg_id: u32, data: Seq<u8>)
    requires
        data.len() <= 65535,
    ensures
        wire::request_frame(channel_id, msg_id, data) == seq![
            (data.len() / 0x100) as u8,
            (data.len() % 0x100) as u8,
            (channel_id / 0x100_0000) as u8,
            ((channel_id / 0x1_0000) % 0x100) as u8,
            ((channel_id / 0x100) % 0x100) as u8,
            (channel_id % 0x100) as u8,
            (msg_id / 0x100_0000) as u8,
            ((msg_id / 0x1_0000) % 0x100) as u8,
            ((msg_id / 0x100) % 0x100) as u8,
            (msg_id % 0x100) as u8,
        ] + data,
{
    law_numbers_are_big_endian(data.len());
    law_numbers_are_big_endian(channel_id as nat);
    law_numbers_are_big_endian(msg_id as nat);
    assert((data.len() / 0x100) % 0x100 == data.len() / 0x100);
    assert((channel_id as nat / 0x100_0000) % 0x100 == channel_id / 0x100_0000);
    assert((msg_id as nat / 0x100_0000) % 0x100 == msg_id / 0x100_0000);
    let expected = seq![
        (data.len() / 0x100) as u8,
        (data.len() % 0x100) as u8,
        (channel_id / 0x100_0000) as u8,
        ((channel_id / 0x1_0000) % 0x100) as u8,
        ((channel_id / 0x100) % 0x100) as u8,
        (channel_id % 0x100) as u8,
        (msg_id / 0x100_0000) as u8,
        ((msg_id / 0x1_0000) % 0x100) as u8,
        ((msg_id / 0x100) % 0x100) as u8,
        (msg_id % 0x100) as u8,
    ] + data;
    assert(wire::request_frame(channel_id, msg_id, data) =~= expected);
}

/// Where the bytes of a single-exchange request stand: two of length, four of
/// channel, and the payload.
pub proof fn law_stream_request_bytes(channel_id: u32, data: Seq<u8>)
    requires
        data.len() <= 65535,
    ensures
        wire::stream_request_frame(channel_id, data) == seq![
            (data.len() / 0x100) as u8,
            (data.len() % 0x100) as u8,
            (channel_id / 0x100_0000) as u8,
            ((channel_id / 0x1_0000) % 0x100) as u8,
            ((channel_id / 0x100) % 0x100) as u8,
            (channel_id % 0x100) as u8,
        ] + data,
{
    law_numbers_are_big_endian(data.len());
    law_numbers_are_big_endian(channel_id as nat);
    assert((data.len() / 0x100) % 0x100 == data.len() / 0x100);
    assert((channel_id as nat / 0x100_0000) % 0x100 == channel_id / 0x100_0000);
    let expected = seq![
        (data.len() / 0x100) as u8,
        (data.len() % 0x100) as u8,
        (channel_id / 0x100_0000) as u8,
        ((channel_id / 0x1_0000) % 0x100) as u8,
        ((channel_id / 0x100) % 0x100) as u8,
        (channel_id % 0x100) as u8,
    ] + data;
    assert(wire::stream_request_frame(channel_id, data) =~= expected);
}

/// Where the bytes of a reply, of a single-exchange reply, of a request with a
/// long length and of a single-exchange upload item stand: the length first,
/// then the channel and the number where they have one, and the payload last.
pub proof fn law_other_bytes(channel_id: u32, msg_id: u32, msg: Seq<u8>)
    requires
        msg.len() <= u64::MAX,
    ensures
        ({
            let frame = wire::response_frame(msg_id, msg);
            &&& frame.len() == 12 + msg.len()
            &&& wire::be_value(frame.subrange(0, 8)) == msg.len()
            &&& wire::be_value(frame.subrange(8, 12)) == msg_id
            &&& frame.skip(12) == msg
        }),
        ({
            let frame = wire::stream_response_frame(msg);
            &&& frame.len() == 8 + msg.len()
            &&& wire::be_value(frame.subrange(0, 8)) == msg.len()
            &&& frame.skip(8) == msg
        }),
        ({
            let frame = wire::long_request_frame(channel_id, msg_id, msg);
            &&& frame.len() == 16 + msg.len()
            &&& wire::be_value(frame.subrange(0, 8)) == msg.len()
            &&& wire::be_value(frame.subrange(8, 12)) == channel_id
            &&& wire::be_value(frame.subrange(12, 16)) == msg_id
            &&& frame.skip(16) == msg
        }),
        msg.len() <= 65535 ==> {
            let frame = wire::stream_item_frame(msg);
            &&& frame.len() == 2 + msg.len()
            &&& wire::be_value(frame.subrange(0, 2)) == msg.len()
            &&& frame.skip(2) == msg
        },
{
    wire::lemma_pow256_values();
    wire::lemma_be_roundtrip(msg.len(), 8);
    wire::lemma_be_roundtrip(channel_id as nat, 4);
    wire::lemma_be_roundtrip(msg_id as nat, 4);
    let len = wire::be_bytes(msg.len(), 8);
    let channel = wire::be_bytes(channel_id as nat, 4);
    let number = wire::be_bytes(msg_id as nat, 4);
    let reply = wire::response_frame(msg_id, msg);
    assert(reply.subrange(0, 8) =~= len);
    assert(reply.subrange(8, 12) =~= number);
    assert(reply.skip(12) =~= msg);
    let stream_reply = wire::stream_response_frame(msg);
    assert(stream_reply.subrange(0, 8) =~= len);
    assert(stream_reply.skip(8) =~= msg);
    let long = wire::long_request_frame(channel_id, msg_id, msg);
    assert(long.subrange(0, 8) =~= len);
    assert(long.subrange(8, 12) =~= channel);
    assert(long.subrange(12, 16) =~= number);
    assert(long.skip(16) =~= msg);
    if msg.len() <= 65535 {
        wire::lemma_be_roundtrip(msg.len(), 2);
        let item = wire::stream_item_frame(msg);
        assert(item.subrange(0, 2) =~= wire::be_bytes(msg.len(), 2));
        assert(item.skip(2) =~= msg);
    }
}

/// What the bytes of the headers say: length, channel and number, each with
/// its most significant byte first.
pub proof fn law_header_bytes(h: Seq<u8>)
    ensures
        h.len() == 10 ==> {
            let header = RequestHeader::denoted(h);
            &&& header.len == h[0] * 0x100 + h[1]
            &&& header.channel_id == h[2] * 0x100_0000 + h[3] * 0x1_0000 + h[4] * 0x100 + h[5]
            &&& header.msg_id == h[6] * 0x100_0000 + h[7] * 0x1_0000 + h[8] * 0x100 + h[9]
        },
        h.len() == 6 ==> {
            let header = StreamRequestHeader::denoted(h);
            &&& header.len == h[0] * 0x100 + h[1]
            &&& header.channel_id == h[2] * 0x100_0000 + h[3] * 0x1_0000 + h[4] * 0x100 + h[5]
        },
        h.len() == 12 ==> {
            let header = ResponseHeader::denoted(h);
            let len = h[0] * 0x100_0000_0000_0000 + h[1] * 0x1_0000_0000_0000 + h[2]
                * 0x100_0000_0000 + h[3] * 0x1_0000_0000 + h[4] * 0x100_0000 + h[5] * 0x1_0000
                + h[6] * 0x100 + h[7];
            &&& len <= usize::MAX ==> header.len == len
            &&& header.msg_id == h[8] * 0x100_0000 + h[9] * 0x1_0000 + h[10] * 0x100 + h[11]
        },
{
    if h.len() == 10 || h.len() == 6 {
        law_numbers_are_read_big_endian(h.subrange(0, 2));
        law_numbers_are_read_big_endian(h.subrange(2, 6));
    }
    if h.len() == 10 {
        law_numbers_are_read_big_endian(h.subrange(6, 10));
    }
    if h.len() == 12 {
        law_numbers_are_read_big_endian(h.subrange(0, 8));
        law_numbers_are_read_big_endian(h.subrange(8, 12));
    }
}

// ---------------------------------------------------------------------
// Single frames
// ---------------------------------------------------------------------

/// A request that was written is read back as it was, whatever follows it on
/// the stream, and what follows it is left for the next reader.
pub proof fn law_request_read_back(
    channel_id: u32,
    msg_id: u32,
    data: Seq<u8>,
    rest: Seq<u8>,
)
    requires
        data.len() <= MAX_PAYLOAD,
    ensures
        take_request(wire::request_frame(channel_id, msg_id, data) + rest) == Some(
            (RequestParts { channel_id, msg_id, data }, rest),
        ),
{
    let stream = wire::request_frame(channel_id, msg_id, data) + rest;
    wire::lemma_pow256_values();
    wire::lemma_be_roundtrip(data.len(), 2);
    wire::lemma_be_roundtrip(channel_id as nat, 4);
    wire::lemma_be_roundtrip(msg_id as nat, 4);
    let h = stream.take(10);
    assert(h.subrange(0, 2) =~= wire::be_bytes(data.len(), 2));
    assert(h.subrange(2, 6) =~= wire::be_bytes(channel_id as nat, 4));
    assert(h.subrange(6, 10) =~= wire::be_bytes(msg_id as nat, 4));
    assert(stream.subrange(10, 10 + data.len() as int) =~= data);
    assert(stream.skip(10 + data.len() as int) =~= rest);
}

/// Whatever is read as a request is byte for byte what its parts are written
/// as.
pub proof fn law_request_layout_unique(stream: Seq<u8>)
    ensures
        take_request(stream) matches Some((r, rest)) ==> {
            &&& r.data.len() <= MAX_PAYLOAD
            &&& stream == wire::request_frame(r.channel_id, r.msg_id, r.data) + rest
        },
{
    if let Some((r, rest)) = take_request(stream) {
        let h = stream.take(10);
        wire::lemma_pow256_values();
        wire::lemma_be_value_bound(h.subrange(0, 2));
        wire::lemma_be_value_bound(h.subrange(2, 6));
        wire::lemma_be_value_bound(h.subrange(6, 10));
        wire::lemma_be_value_roundtrip(h.subrange(0, 2));
        wire::lemma_be_value_roundtrip(h.subrange(2, 6));
        wire::lemma_be_value_roundtrip(h.subrange(6, 10));
        let len = wire::be_value(h.subrange(0, 2));
        assert(r.data.len() == len);
        assert(stream =~= h.subrange(0, 2) + h.subrange(2, 6) + h.subrange(6, 10) + r.data + rest);
    }
}

/// A reply that was written is read back as it was, whatever follows it on
/// the stream, and what follows it is left for the next reader.
pub proof fn law_response_read_back(msg_id: u32, msg: Seq<u8>, rest: Seq<u8>)
    requires
        msg.len() <= usize::MAX,
    ensures
        take_response(wire::response_frame(msg_id, msg) + rest) == Some(
            (ResponseParts { msg_id, msg }, rest),
        ),
{
    let stream = wire::response_frame(msg_id, msg) + rest;
    wire::lemma_pow256_values();
    wire::lemma_be_roundtrip(msg.len(), 8);
    wire::lemma_be_roundtrip(msg_id as nat, 4);
    let h = stream.take(12);
    assert(h.subrange(0, 8) =~= wire::be_bytes(msg.len(), 8));
    assert(h.subrange(8, 12) =~= wire::be_bytes(msg_id as nat, 4));
    assert(stream.subrange(12, 12 + msg.len() as int) =~= msg);
    assert(stream.skip(12 + msg.len() as int) =~= rest);
}

/// A single-exchange request that was written is read back as it was.
pub proof fn law_stream_request_read_back(channel_id: u32, data: Seq<u8>, rest: Seq<u8>)
    requires
        data.len() <= MAX_PAYLOAD,
    ensures
        take_stream_request(wire::stream_request_frame(channel_id, data) + rest) == Some(
            ((channel_id, data), rest),
        ),
{
    let stream = wire::stream_request_frame(channel_id, data) + rest;
    wire::lemma_pow256_values();
    wire::lemma_be_roundtrip(data.len(), 2);
    wire::lemma_be_roundtrip(channel_id as nat, 4);
    let h = stream.take(6);
    assert(h.subrange(0, 2) =~= wire::be_bytes(data.len(), 2));
    assert(h.subrange(2, 6) =~= wire::be_bytes(channel_id as nat, 4));
    assert(stream.subrange(6, 6 + data.len() as int) =~= data);
    assert(stream.skip(6 + data.len() as int) =~= rest);
}

/// A single-exchange reply that was written is read back as it was.
pub proof fn law_stream_response_read_back(msg: Seq<u8>, rest: Seq<u8>)
    requires
        msg.len() <= usize::MAX,
    ensures
        take_stream_response(wire::stream_response_frame(msg) + rest) == Some((msg, rest)),
{
    let stream = wire::stream_response_frame(msg) + rest;
    wire::lemma_pow256_values();
    wire::lemma_be_roundtrip(msg.len(), 8);
    assert(stream.take(8) =~= wire::be_bytes(msg.len(), 8));
    assert(stream.subrange(8, 8 + msg.len() as int) =~= msg);
    assert(stream.skip(8 + msg.len() as int) =~= rest);
}

/// A single-exchange upload item is read back as it was laid out.
pub proof fn law_stream_item_read_back(data: Seq<u8>, rest: Seq<u8>)
    requires
        data.len() <= MAX_PAYLOAD,
    ensures
        take_stream_item(wire::stream_item_frame(data) + rest) == Some((data, rest)),
{
    let stream = wire::stream_item_frame(data) + rest;
    wire::lemma_pow256_values();
    wire::lemma_be_roundtrip(data.len(), 2);
    assert(stream.take(2) =~= wire::be_bytes(data.len(), 2));
    assert(stream.subrange(2, 2 + data.len() as int) =~= data);
    assert(stream.skip(2 + data.len() as int) =~= rest);
}

/// A request of which some is missing is read as nothing.
pub proof fn law_part_of_request_is_nothing(channel_id: u32, msg_id: u32, data: Seq<u8>, n: int)
    requires
        data.len() <= MAX_PAYLOAD,
        0 <= n < wire::request_frame(channel_id, msg_id, data).len(),
    ensures
        take_request(wire::request_frame(channel_id, msg_id, data).take(n)) is None,
{
    let frame = wire::request_frame(channel_id, msg_id, data);
    wire::lemma_pow256_values();
    wire::lemma_be_roundtrip(data.len(), 2);
    wire::lemma_be_bytes_len(channel_id as nat, 4);
    wire::lemma_be_bytes_len(msg_id as nat, 4);
    if n >= 10 {
        assert(frame.take(n).take(10).subrange(0, 2) =~= wire::be_bytes(data.len(), 2));
    }
}

/// A reply of which some is missing is read as nothing.
pub proof fn law_part_of_response_is_nothing(msg_id: u32, msg: Seq<u8>, n: int)
    requires
        msg.len() <= usize::MAX,
        0 <= n < wire::response_frame(msg_id, msg).len(),
    ensures
        take_response(wire::response_frame(msg_id, msg).take(n)) is None,
{
    let frame = wire::response_frame(msg_id, msg);
    wire::lemma_pow256_values();
    wire::lemma_be_roundtrip(msg.len(), 8);
    wire::lemma_be_bytes_len(msg_id as nat, 4);
    if n >= 12 {
        assert(frame.take(n).take(12).subrange(0, 8) =~= wire::be_bytes(msg.len(), 8));
    }
}

/// A single-exchange request of which some is missing is read as nothing.
pub proof fn law_part_of_stream_request_is_nothing(channel_id: u32, data: Seq<u8>, n: int)
    requires
        data.len() <= MAX_PAYLOAD,
        0 <= n < wire::stream_request_frame(channel_id, data).len(),
    ensures
        take_stream_request(wire::stream_request_frame(channel_id, data).take(n)) is None,
{
    let frame = wire::stream_request_frame(channel_id, data);
    wire::lemma_pow256_values();
    wire::lemma_be_roundtrip(data.len(), 2);
    wire::lemma_be_bytes_len(channel_id as nat, 4);
    if n >= 6 {
        assert(frame.take(n).take(6).subrange(0, 2) =~= wire::be_bytes(data.len(), 2));
    }
}

/// A single-exchange reply of which some is missing is read as nothing.
pub proof fn law_part_of_stream_response_is_nothing(msg: Seq<u8>, n: int)
    requires
        msg.len() <= usize::MAX,
        0 <= n < wire::stream_response_frame(msg).len(),
    ensures
        take_stream_response(wire::stream_response_frame(msg).take(n)) is None,
{
    let frame = wire::stream_response_frame(msg);
    wire::lemma_pow256_values();
    wire::lemma_be_roundtrip(msg.len(), 8);
    if n >= 8 {
        assert(frame.take(n).take(8) =~= wire::be_bytes(msg.len(), 8));
    }
}

/// A single-exchange upload item of which some is missing is read as nothing.
pub proof fn law_part_of_stream_item_is_nothing(data: Seq<u8>, n: int)
    requires
        data.len() <= MAX_PAYLOAD,
        0 <= n < wire::stream_item_frame(data).len(),
    ensures
        take_stream_item(wire::stream_item_frame(data).take(n)) is None,
{
    let frame = wire::stream_item_frame(data);
    wire::lemma_pow256_values();
    wire::lemma_be_roundtrip(data.len(), 2);
    if n >= 2 {
        assert(frame.take(n).take(2) =~= wire::be_bytes(data.len(), 2));
    }
}

// ---------------------------------------------------------------------
// Whole streams
// ---------------------------------------------------------------------

/// Requests written one behind the other.
pub open spec fn request_stream(requests: Seq<RequestParts>) -> Seq<u8>
    decreases requests.len(),
{
    if requests.len() == 0 {
        Seq::empty()
    } else {
        let r = requests.first();
        wire::request_frame(r.channel_id, r.msg_id, r.data) + request_stream(requests.drop_first())
    }
}

/// The requests that a reader takes off a stream, up to the first that is not
/// there in full.
pub open spec fn read_requests(stream: Seq<u8>) -> Seq<RequestParts>
    decreases stream.len(),
{
    match take_request(stream) {
        None => Seq::empty(),
        Some((r, rest)) => seq![r] + read_requests(rest),
    }
}

/// Replies written one behind the other.
pub open spec fn response_stream(responses: Seq<ResponseParts>) -> Seq<u8>
    decreases responses.len(),
{
    if responses.len() == 0 {
        Seq::empty()
    } else {
        let r = responses.first();
        wire::response_frame(r.msg_id, r.msg) + response_stream(responses.drop_first())
    }
}

/// The replies that a reader takes off a stream, up to the first that is not
/// there in full.
pub open spec fn read_responses(stream: Seq<u8>) -> Seq<ResponseParts>
    decreases stream.len(),
{
    match take_response(stream) {
        None => Seq::empty(),
        Some((r, rest)) => seq![r] + read_responses(rest),
    }
}

/// A server reads exactly the requests that were written, in order.
pub proof fn law_request_stream_read_back(requests: Seq<RequestParts>)
    requires
        forall|i: int| 0 <= i < requests.len() ==> (#[trigger] requests[i]).data.len() <= MAX_PAYLOAD,
    ensures
        read_requests(request_stream(requests)) == requests,
    decreases requests.len(),
{
    if requests.len() > 0 {
        let r = requests.first();
        let rest = request_stream(requests.drop_first());
        law_request_read_back(r.channel_id, r.msg_id, r.data, rest);
        assert forall|i: int| 0 <= i < requests.drop_first().len() implies (
        #[trigger] requests.drop_first()[i]).data.len() <= MAX_PAYLOAD by {
            assert(requests.drop_first()[i] == requests[i + 1]);
        }
        law_request_stream_read_back(requests.drop_first());
        assert(seq![r] + requests.drop_first() =~= requests);
    }
}

/// A client reads exactly the replies that were written, in order.
pub proof fn law_response_stream_read_back(responses: Seq<ResponseParts>)
    requires
        forall|i: int| 0 <= i < responses.len() ==> (#[trigger] responses[i]).msg.len() <= usize::MAX,
    ensures
        read_responses(response_stream(responses)) == responses,
    decreases responses.len(),
{
    if responses.len() > 0 {
        let r = responses.first();
        let rest = response_stream(responses.drop_first());
        law_response_read_back(r.msg_id, r.msg, rest);
        assert forall|i: int| 0 <= i < responses.drop_first().len() implies (
        #[trigger] responses.drop_first()[i]).msg.len() <= usize::MAX by {
            assert(responses.drop_first()[i] == responses[i + 1]);
        }
        law_response_stream_read_back(responses.drop_first());
        assert(seq![r] + responses.drop_first() =~= responses);
    }
}

/// Single-exchange upload items written one behind the other.
pub open spec fn item_stream(items: Seq<Seq<u8>>) -> Seq<u8>
    decreases items.len(),
{
    if items.len() == 0 {
        Seq::empty()
    } else {
        wire::stream_item_frame(items.first()) + item_stream(items.drop_first())
    }
}

/// The single-exchange upload items that a reader takes off a stream, up to
/// the first that is not there in full.
pub open spec fn read_items(stream: Seq<u8>) -> Seq<Seq<u8>>
    decreases stream.len(),
{
    match take_stream_item(stream) {
        None => Seq::empty(),
        Some((item, rest)) => seq![item] + read_items(rest),
    }
}

/// A server reads exactly the single-exchange upload items that were written,
/// in order, those without payload too.
pub proof fn law_item_stream_read_back(items: Seq<Seq<u8>>)
    requires
        forall|i: int| 0 <= i < items.len() ==> (#[trigger] items[i]).len() <= MAX_PAYLOAD,
    ensures
        read_items(item_stream(items)) == items,
    decreases items.len(),
{
    if items.len() > 0 {
        let rest = item_stream(items.drop_first());
        assert(items[0].len() <= MAX_PAYLOAD);
        law_stream_item_read_back(items.first(), rest);
        assert forall|i: int| 0 <= i < items.drop_first().len() implies (
        #[trigger] items.drop_first()[i]).len() <= MAX_PAYLOAD by {
            assert(items.drop_first()[i] == items[i + 1]);
        }
        law_item_stream_read_back(items.drop_first());
        assert(seq![items.first()] + items.drop_first() =~= items);
    }
}

} // verus!
