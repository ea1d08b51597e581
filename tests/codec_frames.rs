use chat_relay::codec::{decode_request, encode_response, ChatRequest, ChatResponse, Decoded};

#[test]
fn decode_waits_for_whole_frame() {
    assert_eq!(decode_request(&[]), Decoded::Incomplete);
    assert_eq!(decode_request(&[0]), Decoded::Incomplete);
    assert_eq!(decode_request(&[0, 3, b'J', b'a']), Decoded::Incomplete);
}

#[test]
fn decode_each_request_kind() {
    assert_eq!(decode_request(&[0, 1, b'L']), Decoded::Frame(ChatRequest::List, 3));
    assert_eq!(decode_request(&[0, 1, b'P', 9, 9]), Decoded::Frame(ChatRequest::Ping, 3));
    assert_eq!(
        decode_request(&[0, 3, b'J', b'h', b'i']),
        Decoded::Frame(ChatRequest::Join("hi".to_string()), 5)
    );
    assert_eq!(
        decode_request(&[0, 2, b'N', b'x']),
        Decoded::Frame(ChatRequest::Name("x".to_string()), 4)
    );
    let mut buf = vec![0, 3, b'M'];
    buf.extend_from_slice("é".as_bytes());
    assert_eq!(decode_request(&buf), Decoded::Frame(ChatRequest::Message("é".to_string()), 5));
}

#[test]
fn decode_rejects_bad_frames() {
    assert_eq!(decode_request(&[0, 0]), Decoded::Invalid);
    assert_eq!(decode_request(&[0, 2, b'L', 0]), Decoded::Invalid);
    assert_eq!(decode_request(&[0, 1, b'Z']), Decoded::Invalid);
    assert_eq!(decode_request(&[0, 2, b'M', 0xff]), Decoded::Invalid);
}

#[test]
fn decode_long_length() {
    let mut buf = vec![1, 1, b'M'];
    buf.extend(std::iter::repeat(b'a').take(256));
    match decode_request(&buf) {
        Decoded::Frame(ChatRequest::Message(t), n) => {
            assert_eq!(n, 259);
            assert_eq!(t.len(), 256);
        }
        other => panic!("unexpected {:?}", other),
    }
}

#[test]
fn encode_responses() {
    assert_eq!(encode_response(&ChatResponse::Ping), Some(vec![0, 1, b'P']));
    assert_eq!(
        encode_response(&ChatResponse::Message("hey".to_string())),
        Some(vec![0, 4, b'M', b'h', b'e', b'y'])
    );
    assert_eq!(
        encode_response(&ChatResponse::Joined("é".to_string())),
        Some(vec![0, 3, b'J', 0xc3, 0xa9])
    );
    assert_eq!(
        encode_response(&ChatResponse::Rooms(vec!["Main".to_string(), "x".to_string()])),
        Some(vec![0, 10, b'L', 0, 4, b'M', b'a', b'i', b'n', 0, 1, b'x'])
    );
    assert_eq!(encode_response(&ChatResponse::Rooms(vec![])), Some(vec![0, 1, b'L']));
}

#[test]
fn encode_refuses_oversized_bodies() {
    let big = "a".repeat(65535);
    assert_eq!(encode_response(&ChatResponse::Message(big.clone())), None);
    let fits = "a".repeat(65534);
    let out = encode_response(&ChatResponse::Message(fits)).unwrap();
    assert_eq!(&out[..3], &[255, 255, b'M']);
    assert_eq!(out.len(), 65537);
    let names = vec!["a".repeat(40000), "b".repeat(40000)];
    assert_eq!(encode_response(&ChatResponse::Rooms(names)), None);
}
