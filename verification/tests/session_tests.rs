use socks_relay::codec::ConnectRequest;
use socks_relay::session::{initial_state, step, Action, Event, SessionEnd, SessionState};

/// Drive the handshake up to the granted reply and return the state
/// and the reply's wire bytes.
fn handshake(header: Vec<u8>) -> (SessionState, Vec<u8>) {
    let s = initial_state();
    let (mut s, mut a) = step(s, Event::HeaderBytes(header));
    assert!(matches!(a, Action::ReadIdByte));
    // an empty client id: the terminator comes at once
    let r = step(s, Event::IdByte(0x00));
    s = r.0;
    a = r.1;
    let reply = match a {
        Action::WriteReply(rep) => rep,
        other => panic!("expected a reply write, got {:?}", other),
    };
    (s, reply.to_bytes())
}

#[test]
fn granted_reply_echoes_address_with_zero_port() {
    let (s, reply_bytes) = handshake(vec![0x04, 0x01, 0x00, 0x50, 0x7f, 0x00, 0x00, 0x01]);
    assert!(matches!(s, SessionState::SendingReply { .. }));
    assert_eq!(reply_bytes, vec![0x00, 0x5a, 0x00, 0x00, 0x7f, 0x00, 0x00, 0x01]);
}

#[test]
fn id_bytes_are_consumed_until_terminator() {
    let s = initial_state();
    let (mut s, _) = step(s, Event::HeaderBytes(vec![0x04, 0x01, 0x00, 0x50, 0x7f, 0x00, 0x00, 0x01]));
    for b in [b'u', b's', b'e', b'r'] {
        let (s2, a) = step(s, Event::IdByte(b));
        assert!(matches!(a, Action::ReadIdByte));
        s = s2;
    }
    let (s, a) = step(s, Event::IdByte(0x00));
    assert!(matches!(s, SessionState::SendingReply { .. }));
    assert!(matches!(a, Action::WriteReply(_)));
}

#[test]
fn short_header_is_a_framing_error_without_reply() {
    let s = initial_state();
    let (s, a) = step(s, Event::HeaderBytes(vec![0x04, 0x01, 0x00]));
    assert_eq!(s, SessionState::Done { end: SessionEnd::FramingError });
    assert!(matches!(a, Action::Stop));
}

#[test]
fn unterminated_id_is_a_framing_error() {
    let s = initial_state();
    let (s, _) = step(s, Event::HeaderBytes(vec![0x04, 0x01, 0x00, 0x50, 0x7f, 0x00, 0x00, 0x01]));
    let (s, _) = step(s, Event::IdByte(b'x'));
    let (s, a) = step(s, Event::ClientClosed);
    assert_eq!(s, SessionState::Done { end: SessionEnd::FramingError });
    assert!(matches!(a, Action::Stop));
}

#[test]
fn reply_leads_to_upstream_connect() {
    let (s, _) = handshake(vec![0x04, 0x01, 0x1f, 0x90, 0x0a, 0x00, 0x00, 0x02]);
    let (s, a) = step(s, Event::ReplyWritten);
    assert!(matches!(s, SessionState::Connecting { .. }));
    match a {
        Action::ConnectUpstream(addr, port) => {
            assert_eq!(addr, 0x0a000002);
            assert_eq!(port, 8080);
        },
        other => panic!("expected an upstream connect, got {:?}", other),
    }
}

#[test]
fn connect_failure_ends_before_relay() {
    let (s, _) = handshake(vec![0x04, 0x01, 0x00, 0x50, 0x7f, 0x00, 0x00, 0x01]);
    let (s, _) = step(s, Event::ReplyWritten);
    let (s, a) = step(s, Event::ConnectFailed);
    assert_eq!(s, SessionState::Done { end: SessionEnd::UpstreamConnectError });
    assert!(matches!(a, Action::Stop));
}

#[test]
fn immediate_close_after_handshake_is_clean() {
    let (s, _) = handshake(vec![0x04, 0x01, 0x00, 0x50, 0x7f, 0x00, 0x00, 0x01]);
    let (s, _) = step(s, Event::ReplyWritten);
    let (s, a) = step(s, Event::ConnectOk);
    assert!(matches!(a, Action::ReadClient));
    let (s, a) = step(s, Event::ClientData(Vec::new()));
    assert_eq!(s, SessionState::Done { end: SessionEnd::CleanClose });
    assert!(matches!(a, Action::Stop));
}

/// Run echo cycles through the relay: each client chunk is forwarded,
/// echoed back, and returned to the client. Returns all bytes written
/// back to the client.
fn run_echo(chunks: &[&[u8]]) -> Vec<u8> {
    let (s, _) = handshake(vec![0x04, 0x01, 0x00, 0x50, 0x7f, 0x00, 0x00, 0x01]);
    let (s, _) = step(s, Event::ReplyWritten);
    let (mut s, _) = step(s, Event::ConnectOk);
    let mut to_client: Vec<u8> = Vec::new();
    for chunk in chunks {
        let (s2, a) = step(s, Event::ClientData(chunk.to_vec()));
        let forwarded = match a {
            Action::WriteUpstream(b) => b,
            other => panic!("expected an upstream write, got {:?}", other),
        };
        assert_eq!(forwarded, chunk.to_vec());
        // the upstream echoes the forwarded bytes unchanged
        let (s3, a) = step(s2, Event::UpstreamData(forwarded));
        match a {
            Action::WriteClient(b) => to_client.extend_from_slice(&b),
            other => panic!("expected a client write, got {:?}", other),
        }
        assert!(matches!(s3, SessionState::RelayClientRead));
        s = s3;
    }
    let (s, _) = step(s, Event::ClientData(Vec::new()));
    assert_eq!(s, SessionState::Done { end: SessionEnd::CleanClose });
    to_client
}

#[test]
fn echo_relay_single_cycle_returns_same_bytes() {
    let sent = b"GET / HTTP/1.1\r\n\r\n";
    assert_eq!(run_echo(&[sent]), sent.to_vec());
}

#[test]
fn echo_relay_multi_cycle_returns_same_bytes() {
    let chunks: [&[u8]; 3] = [b"first request", b"second", b"third and last"];
    let mut expected: Vec<u8> = Vec::new();
    for c in chunks {
        expected.extend_from_slice(c);
    }
    assert_eq!(run_echo(&chunks), expected);
}

#[test]
fn io_error_during_relay_tears_the_session_down() {
    let (s, _) = handshake(vec![0x04, 0x01, 0x00, 0x50, 0x7f, 0x00, 0x00, 0x01]);
    let (s, _) = step(s, Event::ReplyWritten);
    let (s, _) = step(s, Event::ConnectOk);
    let (s, _) = step(s, Event::ClientData(vec![1, 2, 3]));
    let (s, a) = step(s, Event::IoError);
    assert_eq!(s, SessionState::Done { end: SessionEnd::RelayIoError });
    assert!(matches!(a, Action::Stop));
}

#[test]
fn decoded_header_fields_reach_the_connect_action() {
    let s = initial_state();
    let (s, _) = step(s, Event::HeaderBytes(vec![0x04, 0x01, 0xab, 0xcd, 0xc0, 0xa8, 0x00, 0x07]));
    match s {
        SessionState::AwaitingId { header } => {
            assert_eq!(
                header,
                ConnectRequest::new(0x04, 0x01, 0xabcd, 0xc0a80007)
            );
        },
        other => panic!("expected to be awaiting the id, got {:?}", other),
    }
}
