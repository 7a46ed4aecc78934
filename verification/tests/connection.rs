use mc_networking::client::keep_alive::{KeepAliveData, KeepAliveStep};
use mc_networking::client::protocol::{Action, ClientEvent, Connection, ListenError, LoginStartResult, Pending};
use mc_networking::client::ClientState;
use mc_networking::packets::RawPacket;

fn handshake(next_state: u8) -> RawPacket {
    let mut data = vec![0xf6, 0x05, 9];
    data.extend_from_slice(b"localhost");
    data.extend_from_slice(&[0x63, 0xdd, next_state]);
    RawPacket::new(0, data)
}

fn login_start(name: &str) -> RawPacket {
    let mut data = vec![name.len() as u8];
    data.extend_from_slice(name.as_bytes());
    data.push(0);
    RawPacket::new(0, data)
}

#[test]
fn status_exchange() {
    let mut c = Connection::new(vec![1, 2, 3, 4], vec![]);
    assert!(c.on_packet(handshake(1)).unwrap().is_empty());
    assert_eq!(c.state(), ClientState::Status);
    let a = c.on_packet(RawPacket::new(0, vec![])).unwrap();
    assert!(matches!(a.as_slice(), [Action::AskServerListPing]));
    assert_eq!(c.pending(), Pending::ServerListPing);
    let a = c.on_status_response("{}".to_string());
    match a.as_slice() {
        [Action::Send(p)] => {
            assert_eq!(p.packet_id, 0);
            assert_eq!(p.data, vec![2, b'{', b'}']);
        }
        _ => panic!("expected the status response"),
    }
    let a = c.on_packet(RawPacket::new(1, vec![0, 0, 0, 0, 0, 0, 0, 42])).unwrap();
    match a.as_slice() {
        [Action::Send(p), Action::Emit(ClientEvent::Logout)] => {
            assert_eq!(p.packet_id, 1);
            assert_eq!(p.data, vec![0, 0, 0, 0, 0, 0, 0, 42]);
        }
        _ => panic!("expected the pong"),
    }
    assert_eq!(c.state(), ClientState::Disconnected);
}

#[test]
fn bad_next_state() {
    let mut c = Connection::new(vec![1, 2, 3, 4], vec![]);
    match c.on_packet(handshake(3)) {
        Err(ListenError::InvalidPacket { packet_id, state, packet_name, message }) => {
            assert_eq!(packet_id, 0);
            assert_eq!(state, ClientState::Handshaking);
            assert_eq!(packet_name.as_deref(), Some("Handshake"));
            assert_eq!(message, "invalid next state");
        }
        _ => panic!("expected an invalid packet"),
    }
}

#[test]
fn unknown_status_packet() {
    let mut c = Connection::new(vec![1, 2, 3, 4], vec![]);
    c.on_packet(handshake(1)).unwrap();
    assert!(matches!(
        c.on_packet(RawPacket::new(5, vec![])),
        Err(ListenError::InvalidPacket { packet_id: 5, .. })
    ));
}

#[test]
fn login_without_encryption_with_compression() {
    let mut c = Connection::new(vec![1, 2, 3, 4], vec![]);
    c.on_packet(handshake(2)).unwrap();
    let a = c.on_packet(login_start("Steve")).unwrap();
    match a.as_slice() {
        [Action::AskLoginStart(name)] => assert_eq!(name, "Steve"),
        _ => panic!("expected a login question"),
    }
    let a = c.on_login_start_result(LoginStartResult::Accept {
        uuid: 5,
        username: "Steve".to_string(),
        encrypt: false,
        compress: true,
    });
    match a.as_slice() {
        [Action::EnableCompression(p, threshold), Action::Send(success), Action::Emit(ClientEvent::LoggedIn), Action::StartKeepAlive] =>
        {
            assert_eq!(p.packet_id, 3);
            assert_eq!(p.data, vec![50]);
            assert_eq!(threshold.threshold(), 50);
            assert_eq!(success.packet_id, 2);
        }
        _ => panic!("unexpected actions"),
    }
    assert_eq!(c.state(), ClientState::Play);
}

#[test]
fn login_refused() {
    let mut c = Connection::new(vec![1, 2, 3, 4], vec![]);
    c.on_packet(handshake(2)).unwrap();
    c.on_packet(login_start("Alex")).unwrap();
    let a = c.on_login_start_result(LoginStartResult::Disconnect { reason: "no \"you\"".to_string() });
    match a.as_slice() {
        [Action::Send(p), Action::Emit(ClientEvent::Logout)] => {
            let text = "{\"text\":\"no \\\"you\\\"\"}";
            let mut want = vec![text.len() as u8];
            want.extend_from_slice(text.as_bytes());
            assert_eq!(p.data, want);
        }
        _ => panic!("expected a disconnect"),
    }
    assert_eq!(c.state(), ClientState::Disconnected);
}

#[test]
fn login_refused_with_control_characters_escaped() {
    let mut c = Connection::new(vec![1, 2, 3, 4], vec![]);
    c.on_packet(handshake(2)).unwrap();
    c.on_packet(login_start("Alex")).unwrap();
    let reason = "a\tb\\c\u{1}\u{1f}\u{7f}\u{e9}".to_string();
    let a = c.on_login_start_result(LoginStartResult::Disconnect { reason });
    match a.as_slice() {
        [Action::Send(p), Action::Emit(ClientEvent::Logout)] => {
            let text = "{\"text\":\"a\\tb\\\\c\\u0001\\u001f\u{7f}\u{e9}\"}";
            let mut want = vec![text.len() as u8];
            want.extend_from_slice(text.as_bytes());
            assert_eq!(p.data, want);
        }
        _ => panic!("expected a disconnect"),
    }
}

#[test]
fn login_with_encryption() {
    let mut c = Connection::new(vec![1, 2, 3, 4], vec![9, 9]);
    c.on_packet(handshake(2)).unwrap();
    assert!(matches!(
        c.on_packet(RawPacket::new(1, vec![1, 0, 1, 1, 0])),
        Err(ListenError::InvalidPacket { packet_id: 1, .. })
    ));
    c.on_packet(login_start("Alex")).unwrap();
    let a = c.on_login_start_result(LoginStartResult::Accept {
        uuid: 5,
        username: "Alex".to_string(),
        encrypt: true,
        compress: false,
    });
    match a.as_slice() {
        [Action::Send(p)] => {
            assert_eq!(p.packet_id, 1);
            assert_eq!(p.data, vec![0, 2, 9, 9, 4, 1, 2, 3, 4]);
        }
        _ => panic!("expected an encryption request"),
    }
    let a = c.on_packet(RawPacket::new(1, vec![2, 7, 7, 1, 2, 8, 8])).unwrap();
    match a.as_slice() {
        [Action::Decrypt { shared_secret, verify_token }] => {
            assert_eq!(shared_secret, &vec![7, 7]);
            assert_eq!(verify_token, &vec![8, 8]);
        }
        _ => panic!("expected a decryption"),
    }
    assert!(c.on_decrypted(vec![0; 16], vec![4, 3, 2, 1]).is_err());
    assert_eq!(c.state(), ClientState::Login);
}

#[test]
fn encryption_accepted() {
    let mut c = Connection::new(vec![1, 2, 3, 4], vec![]);
    c.on_packet(handshake(2)).unwrap();
    c.on_packet(login_start("Alex")).unwrap();
    c.on_login_start_result(LoginStartResult::Accept {
        uuid: 5,
        username: "Alex".to_string(),
        encrypt: true,
        compress: false,
    });
    c.on_packet(RawPacket::new(1, vec![1, 7, 1, 1, 8])).unwrap();
    let a = c.on_decrypted(vec![3; 16], vec![1, 2, 3, 4]).unwrap();
    assert!(matches!(
        a.as_slice(),
        [Action::EnableEncryption(_), Action::Send(_), Action::StartKeepAlive, Action::Emit(ClientEvent::LoggedIn)]
    ));
    assert_eq!(c.state(), ClientState::Play);
}

#[test]
fn play_packets_become_events() {
    let mut c = Connection::new(vec![1, 2, 3, 4], vec![]);
    c.on_packet(handshake(2)).unwrap();
    c.on_packet(login_start("Alex")).unwrap();
    c.on_login_start_result(LoginStartResult::Accept {
        uuid: 5,
        username: "Alex".to_string(),
        encrypt: false,
        compress: false,
    });
    let a = c.on_packet(RawPacket::new(0x11, vec![0, 0, 0, 0, 0, 0, 0, 9])).unwrap();
    assert!(matches!(a.as_slice(), [Action::KeepAliveAnswer(9)]));
    let a = c.on_packet(RawPacket::new(0x2e, vec![1])).unwrap();
    match a.as_slice() {
        [Action::Emit(ClientEvent::SwingArm(s))] => assert_eq!(s.hand, 1),
        _ => panic!("expected a swing"),
    }
    assert!(c.on_packet(RawPacket::new(0x50, vec![])).unwrap().is_empty());
}

#[test]
fn keep_alive_rounds() {
    let mut d = KeepAliveData::new(0);
    let p = d.start_round(1000, 1000);
    assert_eq!(p.packet_id, 0x1e);
    assert_eq!(d.check(2000), KeepAliveStep::Resend(1000));
    d.on_answer(999);
    assert_eq!(d.check(2000), KeepAliveStep::Resend(1000));
    assert_eq!(d.check(31000), KeepAliveStep::TimedOut);
    d.on_answer(1000);
    assert_eq!(d.check(40000), KeepAliveStep::Answered);
}

#[test]
fn packets_that_make_decoding_panic() {
    let mut c = Connection::new(vec![1, 2, 3, 4], vec![]);
    // a server address with a negative length
    let bad = RawPacket::new(0, vec![0xf6, 0x05, 0xff, 0xff, 0xff, 0xff, 0x0f, 0x63, 0xdd, 2]);
    assert!(c.would_panic(&bad));
    assert!(!c.would_panic(&handshake(2)));
    // a wrong id is an error, not a panic
    assert!(!c.would_panic(&RawPacket::new(3, vec![0xff, 0xff, 0xff, 0xff, 0x0f])));
    c.on_packet(handshake(2)).unwrap();
    // a shared secret with a negative length
    assert!(c.would_panic(&RawPacket::new(1, vec![0xff, 0xff, 0xff, 0xff, 0x0f])));
    assert!(!c.would_panic(&login_start("Alex")));
    c.on_packet(login_start("Alex")).unwrap();
    c.on_login_start_result(LoginStartResult::Accept {
        uuid: 7,
        username: "Alex".to_string(),
        encrypt: false,
        compress: false,
    });
    assert_eq!(c.state(), ClientState::Play);
    // the client command is not handled
    assert!(c.would_panic(&RawPacket::new(0x06, vec![0])));
    // a creative slot whose item has no NBT byte
    assert!(c.would_panic(&RawPacket::new(0x2a, vec![0, 1, 1, 5, 1])));
    assert!(!c.would_panic(&RawPacket::new(0x2a, vec![0, 1, 1, 5, 1, 0])));
    assert!(!c.would_panic(&RawPacket::new(0x11, vec![])));
}
