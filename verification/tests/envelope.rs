use placement_center::raft::envelope::{
    decode_envelope, encode_envelope, AppendReply, AppendRequest,
};

#[test]
fn envelope_is_one_field_of_bytes() {
    assert_eq!(encode_envelope(&[]), Vec::<u8>::new());
    assert_eq!(encode_envelope(&[1, 2, 3]), vec![0x0a, 3, 1, 2, 3]);
    assert_eq!(encode_envelope(&[0]), vec![0x0a, 1, 0]);
    let long = vec![7u8; 300];
    let bytes = encode_envelope(&long);
    // 300 is 0b10_0101100: the low seven bits first, with the top bit set.
    assert_eq!(&bytes[..3], &[0x0a, 0xac, 0x02]);
    assert_eq!(&bytes[3..], &long[..]);
    let longer = vec![1u8; 16384];
    assert_eq!(&encode_envelope(&longer)[..4], &[0x0a, 0x80, 0x80, 0x01]);
}

#[test]
fn envelope_round_trip() {
    for len in [0usize, 1, 2, 127, 128, 129, 255, 256, 16383, 16384, 70000] {
        let payload: Vec<u8> = (0..len).map(|i| (i % 251) as u8).collect();
        assert_eq!(decode_envelope(&encode_envelope(&payload)), Some(payload));
    }
}

#[test]
fn broken_envelopes_are_refused() {
    // Another field.
    assert_eq!(decode_envelope(&[0x12, 1, 0]), None);
    // The key alone.
    assert_eq!(decode_envelope(&[0x0a]), None);
    // A length that is cut short.
    assert_eq!(decode_envelope(&[0x0a, 0x80]), None);
    // A payload that is shorter, or longer, than its length says.
    assert_eq!(decode_envelope(&[0x0a, 3, 1, 2]), None);
    assert_eq!(decode_envelope(&[0x0a, 1, 1, 2]), None);
    // A length beyond everything.
    assert_eq!(
        decode_envelope(&[0x0a, 0xff, 0xff, 0xff, 0xff, 0xff, 0xff, 0xff, 0xff, 0xff, 0x7f, 1]),
        None
    );
    // A length written with more bytes than it needs is still that length.
    assert_eq!(decode_envelope(&[0x0a, 0x82, 0x00, 5, 6]), Some(vec![5, 6]));
    assert_eq!(decode_envelope(&[0x0a, 0x80, 0x80, 0x80, 0x00]), Some(vec![]));
}

#[test]
fn requests_and_replies_travel_in_envelopes() {
    let request = AppendRequest { value: vec![9, 8] };
    assert_eq!(request.encode(), vec![0x0a, 2, 9, 8]);
    assert_eq!(AppendRequest::decode(&request.encode()), Some(request));
    let reply = AppendReply { value: Vec::new() };
    assert_eq!(reply.encode(), Vec::<u8>::new());
    assert_eq!(AppendReply::decode(&[]), Some(reply));
    assert_eq!(AppendReply::decode(&[1]), None);
}
