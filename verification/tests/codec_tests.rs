use socks_relay::codec::{
    decode_client_id, decode_request, encode_reply, encode_request, ConnectReply, ConnectRequest,
    STATUS_GRANTED,
};

#[test]
fn decode_request_example() {
    let bytes = vec![0x04, 0x01, 0x00, 0x50, 0x7f, 0x00, 0x00, 0x01];
    let r = decode_request(&bytes);
    assert_eq!(r.version, 4);
    assert_eq!(r.command, 1);
    assert_eq!(r.dst_port, 80);
    assert_eq!(r.dst_addr, 0x7f000001);
}

#[test]
fn encode_request_exact_bytes() {
    let r = ConnectRequest::new(0x04, 0x01, 0x0050, 0x7f000001);
    let bytes = encode_request(&r);
    assert_eq!(bytes, vec![0x04, 0x01, 0x00, 0x50, 0x7f, 0x00, 0x00, 0x01]);
}

#[test]
fn request_round_trip_all_fields() {
    let cases = [
        (4u8, 1u8, 80u16, 0x7f000001u32),
        (0, 0, 0, 0),
        (255, 255, 65535, 0xffffffff),
        (4, 2, 1, 0x01020304),
    ];
    for (version, command, port, addr) in cases {
        let r = ConnectRequest::new(version, command, port, addr);
        let bytes = encode_request(&r);
        let back = decode_request(&bytes);
        assert_eq!(back, r);
    }
}

#[test]
fn encode_reply_exact_bytes() {
    let rep = ConnectReply::new(0x00, STATUS_GRANTED, 0x0000, 0x7f000001);
    let bytes = encode_reply(&rep);
    assert_eq!(bytes, vec![0x00, 0x5a, 0x00, 0x00, 0x7f, 0x00, 0x00, 0x01]);
}

#[test]
fn reply_to_bytes_big_endian_fields() {
    let rep = ConnectReply::new(0x00, 0x5b, 0xabcd, 0x01020304);
    let bytes = rep.to_bytes();
    assert_eq!(bytes, vec![0x00, 0x5b, 0xab, 0xcd, 0x01, 0x02, 0x03, 0x04]);
}

#[test]
fn client_id_before_terminator() {
    let data = vec![b'a', b'b', b'c', 0x00, b'd', b'e'];
    let id = decode_client_id(&data);
    assert_eq!(id, Some(vec![b'a', b'b', b'c']));
}

#[test]
fn client_id_immediate_terminator_is_empty() {
    let data = vec![0x00];
    let id = decode_client_id(&data);
    assert_eq!(id, Some(Vec::new()));
}

#[test]
fn client_id_unterminated_is_error() {
    let data = vec![b'a', b'b', b'c'];
    assert_eq!(decode_client_id(&data), None);
    assert_eq!(decode_client_id(&Vec::new()), None);
}
