//! Protocol-level tests: capability and version lists, negotiation, the
//! framer's size limit, and the connection state machine end to end.

use spoa::action::{Action, Scope};
use spoa::caps::{parse_caps_str, Capability};
use spoa::data::Typed;
use spoa::frame::{Ack, Frame, HaproxyHello, Message, Notify};
use spoa::framer::Framer;
use spoa::fragment::Reassembly;
use spoa::handshake::negotiate;
use spoa::state::{Outcome, State};
use spoa::status::Status;
use spoa::version::{parse_versions_str, Version};

#[test]
fn test_capabilities() {
    assert!(parse_caps_str("async,foobar,fragmentation").is_none());
}

#[test]
fn capability_lists_parse() {
    assert_eq!(
        parse_caps_str("fragmentation,pipelining,async"),
        Some(vec![
            Capability::Fragmentation,
            Capability::Pipelining,
            Capability::Async,
        ])
    );
    assert_eq!(
        parse_caps_str(" pipelining , async "),
        Some(vec![Capability::Pipelining, Capability::Async])
    );
    assert_eq!(parse_caps_str(""), Some(vec![]));
    assert_eq!(parse_caps_str("   "), Some(vec![]));
    assert!(parse_caps_str("pipelining,,async").is_none());
}

#[test]
fn version_lists_parse() {
    assert_eq!(
        parse_versions_str("2.0"),
        Some(vec![Version::new(2, 0)])
    );
    assert_eq!(
        parse_versions_str("1.0, 2.0"),
        Some(vec![Version::new(1, 0), Version::new(2, 0)])
    );
    assert!(parse_versions_str("").is_none());
    assert!(parse_versions_str("2").is_none());
    assert!(parse_versions_str("2.x").is_none());
    assert!(parse_versions_str("999.0").is_none());
}

fn hello(
    versions: Vec<Version>,
    max_frame_size: u32,
    capabilities: Vec<Capability>,
    healthcheck: Option<bool>,
) -> HaproxyHello {
    HaproxyHello {
        supported_versions: versions,
        max_frame_size,
        capabilities,
        healthcheck,
        engine_id: None,
    }
}

#[test]
fn negotiation_picks_common_maximum() {
    let client = hello(
        vec![Version::new(1, 0), Version::new(2, 0), Version::new(3, 7)],
        16384,
        vec![Capability::Pipelining, Capability::Fragmentation],
        None,
    );
    let agent_versions = vec![Version::new(2, 0), Version::new(1, 0)];
    let agent_caps = vec![Capability::Fragmentation];
    let n = negotiate(&agent_versions, 4096, &agent_caps, &client).unwrap();
    assert_eq!(n.version, Version::new(2, 0));
    assert_eq!(n.max_frame_size, 4096);
    assert_eq!(n.capabilities, vec![Capability::Fragmentation]);

    let lonely = hello(vec![Version::new(9, 9)], 64, vec![], None);
    assert_eq!(
        negotiate(&agent_versions, 4096, &agent_caps, &lonely),
        Err(Status::NoVersion)
    );
}

#[test]
fn healthcheck_hello_replies_and_disconnects() {
    let st = State::new();
    let frame = Frame::HaproxyHello(hello(
        vec![Version::new(2, 0)],
        1024,
        vec![],
        Some(true),
    ));
    let (next, out) = st.handle_frame(frame).unwrap();
    assert!(matches!(next, State::Disconnected));
    match out {
        Outcome::Reply(Frame::AgentHello(ah)) => {
            assert_eq!(ah.version, Version::new(2, 0));
            assert_eq!(ah.max_frame_size, 1024);
            assert_eq!(ah.capabilities, vec![]);
        }
        other => panic!("unexpected outcome {other:?}"),
    }
}

#[test]
fn normal_handshake_then_notify_and_ack() {
    let st = State::new();
    let frame = Frame::HaproxyHello(hello(
        vec![Version::new(2, 0)],
        16384,
        vec![Capability::Pipelining],
        None,
    ));
    let (next, out) = st.handle_frame(frame).unwrap();
    match &out {
        Outcome::Reply(Frame::AgentHello(ah)) => {
            assert_eq!(ah.version, Version::new(2, 0));
            assert_eq!(ah.max_frame_size, 16384);
            assert_eq!(ah.capabilities, vec![Capability::Pipelining]);
        }
        other => panic!("unexpected outcome {other:?}"),
    }
    let m = Message::new(
        "m".to_string(),
        vec![("k".to_string(), Typed::String("v".to_string()))],
    );
    let notify = Frame::HaproxyNotify(Notify {
        fragmented: false,
        stream_id: 1,
        frame_id: 1,
        messages: vec![m.clone()],
    });
    let (next, out) = next.handle_frame(notify).unwrap();
    match out {
        Outcome::Invoke { stream_id, frame_id, messages } => {
            assert_eq!(stream_id, 1);
            assert_eq!(frame_id, 1);
            assert_eq!(messages, vec![m]);
        }
        other => panic!("unexpected outcome {other:?}"),
    }
    let actions = vec![Action::set_var(
        Scope::Session,
        "x".to_string(),
        Typed::Uint32(7),
    )];
    let ack = Frame::ack(1, 1, actions.clone());
    match &ack {
        Frame::AgentAck(Ack { fragmented, aborted, stream_id, frame_id, actions: got }) => {
            assert!(!fragmented && !aborted);
            assert_eq!((*stream_id, *frame_id), (1, 1));
            assert_eq!(*got, actions);
        }
        other => panic!("unexpected frame {other:?}"),
    }
    // The connection keeps processing.
    assert!(matches!(next, State::Processing(_)));
}

#[test]
fn fragmented_notify_reassembles_once() {
    let st = State::new();
    let frame = Frame::HaproxyHello(hello(
        vec![Version::new(2, 0)],
        16384,
        vec![Capability::Fragmentation],
        None,
    ));
    let (next, _) = st.handle_frame(frame).unwrap();
    let a = Message::new("a".to_string(), vec![]);
    let b = Message::new("b".to_string(), vec![]);
    let c = Message::new("c".to_string(), vec![]);
    let first = Frame::HaproxyNotify(Notify {
        fragmented: true,
        stream_id: 2,
        frame_id: 3,
        messages: vec![a.clone()],
    });
    let (next, out) = next.handle_frame(first).unwrap();
    assert!(matches!(out, Outcome::NoReply));
    let second = Frame::HaproxyNotify(Notify {
        fragmented: false,
        stream_id: 2,
        frame_id: 3,
        messages: vec![b.clone(), c.clone()],
    });
    let (_, out) = next.handle_frame(second).unwrap();
    match out {
        Outcome::Invoke { stream_id, frame_id, messages } => {
            assert_eq!((stream_id, frame_id), (2, 3));
            assert_eq!(messages, vec![a, b, c]);
        }
        other => panic!("unexpected outcome {other:?}"),
    }
}

#[test]
fn fragment_without_capability_is_fatal() {
    let st = State::new();
    let frame = Frame::HaproxyHello(hello(vec![Version::new(2, 0)], 16384, vec![], None));
    let (next, _) = st.handle_frame(frame).unwrap();
    let fragged = Frame::HaproxyNotify(Notify {
        fragmented: true,
        stream_id: 4,
        frame_id: 5,
        messages: vec![],
    });
    assert_eq!(
        next.handle_frame(fragged),
        Err(Status::FragmentNotSupported)
    );
}

#[test]
fn peer_disconnect_ends_processing() {
    let st = State::new();
    let frame = Frame::HaproxyHello(hello(vec![Version::new(2, 0)], 16384, vec![], None));
    let (next, _) = st.handle_frame(frame).unwrap();
    let bye = Frame::haproxy_disconnect(Status::Normal, "bye".to_string());
    assert_eq!(next.handle_frame(bye), Err(Status::Normal));
}

#[test]
fn first_frame_must_be_hello() {
    let st = State::new();
    let notify = Frame::HaproxyNotify(Notify {
        fragmented: false,
        stream_id: 1,
        frame_id: 1,
        messages: vec![],
    });
    assert_eq!(st.handle_frame(notify), Err(Status::Invalid));
}

#[test]
fn oversized_frame_is_rejected() {
    let framer = Framer::new(1024);
    assert_eq!(framer.accept_length(1024), Ok(()));
    assert_eq!(framer.accept_length(1025), Err(Status::BadFrameSize));
    let too_big = vec![0u8; 2048];
    assert_eq!(framer.decode_body(&too_big), Err(Status::BadFrameSize));

    let goodbye = State::disconnect_frame(Status::BadFrameSize, "bad frame size".to_string());
    match goodbye {
        Frame::AgentDisconnect(d) => assert_eq!(d.status_code, 9),
        other => panic!("unexpected frame {other:?}"),
    }
}

#[test]
fn timeout_maps_to_its_disconnect() {
    // The caller bounds the service invocation; on expiry it reports Timeout.
    let goodbye = State::disconnect_frame(Status::Timeout, "process messages".to_string());
    match goodbye {
        Frame::AgentDisconnect(d) => {
            assert_eq!(d.status_code, 2);
            assert_eq!(d.message, "process messages");
        }
        other => panic!("unexpected frame {other:?}"),
    }
}

#[test]
fn framer_round_trips_with_length_prefix() {
    let framer = Framer::new(16384);
    let frame = Frame::ack(
        7,
        8,
        vec![Action::unset_var(Scope::Process, "n".to_string())],
    );
    let bytes = framer.encode_frame(&frame);
    let len = u32::from_be_bytes([bytes[0], bytes[1], bytes[2], bytes[3]]) as usize;
    assert_eq!(len, bytes.len() - 4);
    let body = bytes[4..].to_vec();
    assert_eq!(framer.decode_body(&body), Ok(frame));
}

#[test]
fn reassembly_keeps_keys_apart() {
    let mut table = Reassembly::new();
    let a = Message::new("a".to_string(), vec![]);
    let b = Message::new("b".to_string(), vec![]);
    let c = Message::new("c".to_string(), vec![]);
    assert_eq!(table.reassemble(true, 1, 1, vec![a.clone()]), None);
    assert_eq!(table.reassemble(true, 2, 1, vec![b.clone()]), None);
    assert_eq!(table.reassemble(true, 1, 1, vec![c.clone()]), None);
    assert_eq!(
        table.reassemble(false, 1, 1, vec![]),
        Some(vec![a, c])
    );
    assert_eq!(
        table.reassemble(false, 2, 1, vec![c2("d")]),
        Some(vec![b, c2("d")])
    );
    // Both keys were drained: a final frame now carries only its own payload.
    assert_eq!(table.reassemble(false, 1, 1, vec![]), Some(vec![]));
}

fn c2(name: &str) -> Message {
    Message::new(name.to_string(), vec![])
}

#[test]
fn runtime_builder_defaults() {
    let rt = spoa::runtime::Builder::new()
        .version(Version::new(2, 0))
        .pipelining()
        .build();
    assert_eq!(rt.supported_versions, vec![Version::new(2, 0)]);
    assert_eq!(rt.capabilities, vec![Capability::Pipelining]);
    assert_eq!(rt.max_frame_size, 16384);
    assert_eq!(rt.max_process_time_ms, 15000);
}
