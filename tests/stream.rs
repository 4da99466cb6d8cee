use arbitrary::Unstructured;
use stream_handshake::handshake::{Connected, Connecting, Error, Step};
use stream_handshake::leb128::{decode_uleb128, encode_uleb128};
use stream_handshake::message::{DecodeError, Message};
use stream_handshake::peer::{Envelope, Payload, PeerId};

fn peer(s: &str) -> PeerId {
    PeerId::new(s.to_string())
}

fn arbitrary_message(u: &mut Unstructured) -> arbitrary::Result<Message> {
    let kind: u8 = u.int_in_range(0..=2)?;
    Ok(match kind {
        0 => Message::hello_from_initiator(PeerId::new(u.arbitrary::<String>()?)),
        1 => Message::hello_from_acceptor(PeerId::new(u.arbitrary::<String>()?)),
        _ => Message::data(Payload::new(u.arbitrary::<Vec<u8>>()?)),
    })
}

fn assert_round_trip(msg: &Message) {
    let encoded = msg.encode();
    let decoded = Message::decode(&encoded).unwrap();
    assert_eq!(msg, &decoded);
}

fn connected(our: &str, their: &str) -> Connected {
    match Connecting::accept(peer(our)) {
        Step::Continue(state, None) => {
            match state.receive(Message::hello_from_initiator(peer(their))).unwrap() {
                Step::Done(c, _) => c,
                other => panic!("unexpected step {:?}", other),
            }
        }
        other => panic!("unexpected step {:?}", other),
    }
}

#[test]
fn handshake_message_encoding_roundtrip() {
    for seed in 0u32..300 {
        let raw: Vec<u8> = (0..(seed as usize * 7 % 1500))
            .map(|i| (i as u32).wrapping_mul(2654435761).wrapping_add(seed).rotate_left(seed % 31) as u8)
            .collect();
        let mut u = Unstructured::new(&raw);
        if let Ok(msg) = arbitrary_message(&mut u) {
            assert_round_trip(&msg);
        }
    }
}

#[test]
fn round_trip_edge_cases() {
    assert_round_trip(&Message::hello_from_initiator(peer("")));
    assert_round_trip(&Message::hello_from_acceptor(peer("")));
    assert_round_trip(&Message::hello_from_initiator(peer("héllo wörld ✓ 🦀")));
    assert_round_trip(&Message::hello_from_acceptor(peer(&"x".repeat(20_000))));
    assert_round_trip(&Message::data(Payload::new(vec![])));
    assert_round_trip(&Message::data(Payload::new((0..=255u8).cycle().take(70_000).collect())));
}

#[test]
fn encoding_exact_bytes() {
    assert_eq!(Message::hello_from_initiator(peer("ab")).encode(), vec![0, 2, 97, 98]);
    assert_eq!(Message::hello_from_acceptor(peer("")).encode(), vec![1, 0]);
    assert_eq!(Message::data(Payload::new(vec![1, 2, 3])).encode(), vec![2, 3, 1, 2, 3]);
    let long = "z".repeat(200);
    let bytes = Message::hello_from_initiator(peer(&long)).encode();
    assert_eq!(&bytes[..3], &[0, 0xC8, 0x01]);
    assert_eq!(bytes.len(), 203);
    assert_eq!(Message::hello_from_initiator(peer("é")).encode(), vec![0, 2, 0xC3, 0xA9]);
}

#[test]
fn uleb128_exact_bytes() {
    let mut out = vec![9u8];
    encode_uleb128(&mut out, 624485);
    assert_eq!(out, vec![9, 0xE5, 0x8E, 0x26]);
    let mut max = Vec::new();
    encode_uleb128(&mut max, u64::MAX);
    assert_eq!(max.len(), 10);
    assert!(matches!(decode_uleb128(&max, 0), Ok((u64::MAX, 10))));
    assert!(matches!(decode_uleb128(&[7, 0xE5, 0x8E, 0x26, 5], 1), Ok((624485, 4))));
    assert!(decode_uleb128(&[0x80, 0x80], 0).is_err());
}

#[test]
fn decode_empty_is_insufficient() {
    assert_eq!(Message::decode(&[]), Err(DecodeError::InsufficientInput));
}

#[test]
fn decode_unknown_tag_is_invalid() {
    for tag in 3u8..=255 {
        assert!(matches!(Message::decode(&[tag]), Err(DecodeError::InvalidFormat(_))));
        assert!(matches!(Message::decode(&[tag, 0, 1, 2]), Err(DecodeError::InvalidFormat(_))));
    }
}

#[test]
fn decode_truncated_input_is_insufficient() {
    assert_eq!(Message::decode(&[0]), Err(DecodeError::InsufficientInput));
    assert_eq!(Message::decode(&[1, 0x80]), Err(DecodeError::InsufficientInput));
    assert_eq!(Message::decode(&[0, 5, 97, 98]), Err(DecodeError::InsufficientInput));
    assert_eq!(Message::decode(&[2]), Err(DecodeError::InsufficientInput));
    assert_eq!(Message::decode(&[2, 4, 1, 2, 3]), Err(DecodeError::InsufficientInput));
}

#[test]
fn decode_malformed_input_is_invalid() {
    assert!(matches!(Message::decode(&[0, 1, 0xFF]), Err(DecodeError::InvalidFormat(_))));
    assert!(matches!(Message::decode(&[1, 2, 0xED, 0xA0]), Err(DecodeError::InvalidFormat(_))));
    let mut too_long = vec![2u8];
    too_long.extend_from_slice(&[0xFF; 10]);
    too_long.push(0x7F);
    assert!(matches!(Message::decode(&too_long), Err(DecodeError::InvalidFormat(_))));
}

#[test]
fn decode_ignores_trailing_bytes() {
    assert_eq!(
        Message::decode(&[0, 1, 65, 9, 9, 9]),
        Ok(Message::hello_from_initiator(peer("A")))
    );
    assert_eq!(
        Message::decode(&[2, 2, 7, 8, 0]),
        Ok(Message::data(Payload::new(vec![7, 8])))
    );
}

#[test]
fn decode_utf8_identity() {
    assert_eq!(
        Message::decode(&[1, 4, 0xF0, 0x9F, 0xA6, 0x80]),
        Ok(Message::hello_from_acceptor(peer("🦀")))
    );
}

#[test]
fn error_messages() {
    assert_eq!(DecodeError::InsufficientInput.message(), "not enough input");
    assert_eq!(
        DecodeError::InvalidFormat("bad tag".to_string()).message(),
        "invalid input: bad tag"
    );
    assert_eq!(Error::UnexpectedMessage.message(), "unexpected message");
}

#[test]
fn acceptor_flow() {
    let step = Connecting::accept(peer("A"));
    let state = match step {
        Step::Continue(state, None) => state,
        other => panic!("unexpected step {:?}", other),
    };
    assert_eq!(state.our_peer_id(), &peer("A"));
    match state.receive(Message::hello_from_initiator(peer("B"))).unwrap() {
        Step::Done(c, Some(reply)) => {
            assert_eq!(c.our_peer_id(), &peer("A"));
            assert_eq!(c.their_peer_id(), &peer("B"));
            assert_eq!(reply, Message::hello_from_acceptor(peer("A")));
        }
        other => panic!("unexpected step {:?}", other),
    }
}

#[test]
fn initiator_flow() {
    let step = Connecting::connect(peer("A"));
    let state = match step {
        Step::Continue(state, Some(hello)) => {
            assert_eq!(hello, Message::hello_from_initiator(peer("A")));
            assert_eq!(hello.encode(), vec![0, 1, 65]);
            state
        }
        other => panic!("unexpected step {:?}", other),
    };
    assert_eq!(state.our_peer_id(), &peer("A"));
    match state.receive(Message::hello_from_acceptor(peer("B"))).unwrap() {
        Step::Done(c, None) => {
            assert_eq!(c.our_peer_id(), &peer("A"));
            assert_eq!(c.their_peer_id(), &peer("B"));
        }
        other => panic!("unexpected step {:?}", other),
    }
}

#[test]
fn full_handshake_over_bytes() {
    let (initiator, hello) = match Connecting::connect(peer("init")) {
        Step::Continue(state, Some(hello)) => (state, hello.encode()),
        other => panic!("unexpected step {:?}", other),
    };
    let acceptor = match Connecting::accept(peer("acc")) {
        Step::Continue(state, None) => state,
        other => panic!("unexpected step {:?}", other),
    };
    let (acc_conn, reply) = match acceptor.receive(Message::decode(&hello).unwrap()).unwrap() {
        Step::Done(c, Some(reply)) => (c, reply.encode()),
        other => panic!("unexpected step {:?}", other),
    };
    let init_conn = match initiator.receive(Message::decode(&reply).unwrap()).unwrap() {
        Step::Done(c, None) => c,
        other => panic!("unexpected step {:?}", other),
    };
    assert_eq!(acc_conn.their_peer_id(), &peer("init"));
    assert_eq!(init_conn.their_peer_id(), &peer("acc"));
}

#[test]
fn data_before_handshake_is_rejected() {
    for step in [Connecting::accept(peer("A")), Connecting::connect(peer("A"))] {
        match step {
            Step::Continue(state, _) => {
                let r = state.receive(Message::data(Payload::new(vec![1, 2])));
                assert!(matches!(r, Err(Error::UnexpectedMessage)));
            }
            other => panic!("unexpected step {:?}", other),
        }
    }
}

#[test]
fn hello_after_handshake_is_rejected() {
    let c = connected("A", "B");
    assert_eq!(
        c.receive(Message::hello_from_initiator(peer("C"))),
        Err(Error::UnexpectedMessage)
    );
    assert_eq!(
        c.receive(Message::hello_from_acceptor(peer("B"))),
        Err(Error::UnexpectedMessage)
    );
}

#[test]
fn envelope_bridging_rederives_identities() {
    let c = connected("A", "B");
    let env = Envelope::new(peer("X"), peer("Y"), Payload::new(vec![5, 6, 7]));
    let msg = c.send(env);
    assert_eq!(msg, Message::data(Payload::new(vec![5, 6, 7])));
    let bytes = msg.encode();
    assert_eq!(bytes, vec![2, 3, 5, 6, 7]);
    let back = c.receive(Message::decode(&bytes).unwrap()).unwrap();
    assert_eq!(back.sender(), &peer("B"));
    assert_eq!(back.recipient(), &peer("A"));
    assert_eq!(back.payload(), &Payload::new(vec![5, 6, 7]));
    assert_eq!(back.take_payload().as_bytes(), &[5, 6, 7]);
}

#[test]
fn their_peer_id_is_stable() {
    let c = connected("A", "B");
    let first = c.their_peer_id().clone();
    for i in 0u8..5 {
        let msg = c.send(Envelope::new(peer("Q"), peer("R"), Payload::new(vec![i])));
        let _ = c.receive(msg);
        let _ = c.receive(Message::hello_from_acceptor(peer("Z")));
        assert_eq!(c.their_peer_id(), &first);
    }
    let copy = c.clone();
    assert_eq!(copy.their_peer_id(), &first);
    assert_eq!(copy, c);
}

#[test]
fn peer_id_and_payload_accessors() {
    let id = peer("node-1");
    assert_eq!(id.as_str(), "node-1");
    assert_eq!(id.clone(), id);
    let p = Payload::new(vec![1, 2, 3]);
    assert_eq!(p.encode(), vec![3, 1, 2, 3]);
    assert!(matches!(Payload::parse(&[9, 2, 4, 5], 1), Ok(q) if q.as_bytes() == [4, 5]));
}
