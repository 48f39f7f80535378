use todorpc::rpc::Error;
use todorpc::wire::{
    encode_long_request, encode_request, encode_response, encode_stream_request,
    encode_stream_response, parse_stream_item_len, parse_stream_response_len, RequestHeader,
    ResponseHeader, StreamRequestHeader, MAX_PAYLOAD, UPLOAD_CHANNEL,
};

fn head<const N: usize>(bytes: &[u8]) -> [u8; N] {
    let mut h = [0u8; N];
    h.copy_from_slice(&bytes[..N]);
    h
}

#[test]
fn request_layout() {
    let frame = encode_request(0x0102_0304, 0x0506_0708, &[9, 10]).unwrap();
    assert_eq!(frame, vec![0, 2, 1, 2, 3, 4, 5, 6, 7, 8, 9, 10]);
}

#[test]
fn request_payload_limit() {
    let frame = encode_request(1, 2, &vec![7u8; MAX_PAYLOAD]).unwrap();
    assert_eq!(frame.len(), 65545);
    assert_eq!(&frame[..2], &[0xff, 0xff]);
    assert!(matches!(
        encode_request(1, 2, &vec![7u8; 65536]),
        Err(Error::MessageTooBig)
    ));
    assert!(matches!(
        encode_stream_request(1, &vec![7u8; 65536]),
        Err(Error::MessageTooBig)
    ));
}

#[test]
fn response_layout() {
    assert_eq!(
        encode_response(0x0a0b_0c0d, &[1, 2, 3]),
        vec![0, 0, 0, 0, 0, 0, 0, 3, 10, 11, 12, 13, 1, 2, 3]
    );
    assert_eq!(
        encode_stream_response(&[5]),
        vec![0, 0, 0, 0, 0, 0, 0, 1, 5]
    );
}

#[test]
fn long_request_layout() {
    assert_eq!(
        encode_long_request(1, 2, &[3]),
        vec![0, 0, 0, 0, 0, 0, 0, 1, 0, 0, 0, 1, 0, 0, 0, 2, 3]
    );
}

#[test]
fn stream_request_layout() {
    assert_eq!(
        encode_stream_request(258, &[3, 4]).unwrap(),
        vec![0, 2, 0, 0, 1, 2, 3, 4]
    );
}

#[test]
fn request_is_read_back() {
    for &(channel_id, msg_id, len) in
        &[(0u32, 0u32, 0usize), (1, 2, 1), (UPLOAD_CHANNEL, u32::MAX, 300), (7, 8, MAX_PAYLOAD)]
    {
        let data: Vec<u8> = (0..len).map(|i| (i % 251) as u8).collect();
        let frame = encode_request(channel_id, msg_id, &data).unwrap();
        let header = RequestHeader::parse(&head::<10>(&frame));
        assert_eq!(header, RequestHeader { len, channel_id, msg_id });
        let (message, number) = header.with_body(frame[10..].to_vec());
        assert_eq!(message.channel_id, channel_id);
        assert_eq!(message.msg, data);
        assert_eq!(number, msg_id);
    }
}

#[test]
fn requests_one_behind_the_other_are_read_back() {
    let requests = vec![(1u32, 1u32, vec![1u8, 2]), (2, 2, vec![]), (3, 3, vec![9; 1000])];
    let mut stream: Vec<u8> = Vec::new();
    for (channel_id, msg_id, data) in &requests {
        stream.extend(encode_request(*channel_id, *msg_id, data).unwrap());
    }
    let mut read = Vec::new();
    let mut rest = stream.as_slice();
    while rest.len() >= 10 {
        let header = RequestHeader::parse(&head::<10>(rest));
        let end = 10 + header.len;
        read.push((header.channel_id, header.msg_id, rest[10..end].to_vec()));
        rest = &rest[end..];
    }
    assert!(rest.is_empty());
    assert_eq!(read, requests);
}

#[test]
fn response_is_read_back() {
    let frame = encode_response(77, &[1, 2, 3, 4]);
    let header = ResponseHeader::parse(&head::<12>(&frame));
    assert_eq!(header, ResponseHeader { len: 4, msg_id: 77 });
    assert_eq!(&frame[12..], &[1, 2, 3, 4]);
    let frame = encode_stream_response(&vec![1u8; 70000]);
    assert_eq!(parse_stream_response_len(&head::<8>(&frame)), 70000);
}

#[test]
fn stream_request_is_read_back() {
    let frame = encode_stream_request(3, &[4, 5, 6]).unwrap();
    let header = StreamRequestHeader::parse(&head::<6>(&frame));
    assert_eq!(header, StreamRequestHeader { len: 3, channel_id: 3 });
    let message = header.with_body(frame[6..].to_vec());
    assert_eq!(message.channel_id, 3);
    assert_eq!(message.msg, vec![4, 5, 6]);
}

#[test]
fn stream_item_length() {
    assert_eq!(parse_stream_item_len(&[1, 2]), 258);
    assert_eq!(parse_stream_item_len(&[0, 0]), 0);
    assert_eq!(parse_stream_item_len(&[255, 255]), 65535);
}

#[test]
fn part_of_a_frame_does_not_hold_what_it_announces() {
    let frame = encode_request(1, 2, &[3, 4, 5]).unwrap();
    for n in 10..frame.len() {
        let header = RequestHeader::parse(&head::<10>(&frame[..n]));
        assert!(n < 10 + header.len);
    }
    let frame = encode_response(1, &[3, 4, 5]);
    for n in 12..frame.len() {
        let header = ResponseHeader::parse(&head::<12>(&frame[..n]));
        assert!(n < 12 + header.len);
    }
}

#[test]
fn stream_items_one_behind_the_other_are_read_back() {
    let items: Vec<Vec<u8>> = vec![vec![1, 2], vec![], vec![3; 300], vec![]];
    let mut stream: Vec<u8> = Vec::new();
    for item in &items {
        stream.extend_from_slice(&(item.len() as u16).to_be_bytes());
        stream.extend_from_slice(item);
    }
    let mut read = Vec::new();
    let mut rest = stream.as_slice();
    while rest.len() >= 2 {
        let end = 2 + parse_stream_item_len(&head::<2>(rest));
        read.push(rest[2..end].to_vec());
        rest = &rest[end..];
    }
    assert!(rest.is_empty());
    assert_eq!(read, items);
}
