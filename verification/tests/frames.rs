//! Frame and action codec tests: byte-exact encodings built key by key, and
//! round trips through the parser.

use spoa::action::{put_action, get_action, Action, Scope};
use spoa::caps::Capability;
use spoa::data::{put_kv, Typed, Ipv4, Ipv6};
use spoa::decode::parse_frame;
use spoa::encode::{put_frame, put_metadata};
use spoa::frame::{
    Ack, Disconnect, Flags, Frame, HaproxyHello, AgentHello, Message, Metadata, Notify,
};
use spoa::status::Status;
use spoa::version::Version;
use spoa::wire::put_str;

fn kv(out: &mut Vec<u8>, pair: spoa::data::KeyValue) {
    put_kv(out, pair.key.as_str(), &pair.value);
}

fn actions() -> Vec<(Action, Vec<u8>)> {
    let set_var = Action::set_var(
        Scope::Request,
        "foo".to_string(),
        Typed::String("bar".to_string()),
    );
    let unset_var = Action::unset_var(Scope::Response, "foo".to_string());
    let set_var_bytes = {
        let mut v = vec![1u8, 3, 3];
        v.push(3);
        v.extend_from_slice(b"foo");
        v.push(8);
        v.push(3);
        v.extend_from_slice(b"bar");
        v
    };
    let unset_var_bytes = {
        let mut v = vec![2u8, 2, 4];
        v.push(3);
        v.extend_from_slice(b"foo");
        v
    };
    vec![(set_var, set_var_bytes), (unset_var, unset_var_bytes)]
}

fn check_actions() {
    for (a, b) in actions() {
        assert_eq!(a.size(), b.len());

        let mut v = Vec::new();
        put_action(&mut v, &a);
        assert_eq!(v, b, "put_action({a:?}) -> {b:?}");

        let (decoded, end) = get_action(&b, 0).expect("decode");
        assert_eq!(decoded, a, "action({b:?}) -> {a:?}");
        assert_eq!(end, b.len());
    }
}

#[test]
fn buf_test_action() {
    check_actions();
}

#[test]
fn frames_test_action() {
    check_actions();
}

#[test]
fn parser_test_action() {
    check_actions();
}

fn frames() -> Vec<(Frame, Vec<u8>)> {
    let mut out = Vec::new();

    let hello = Frame::HaproxyHello(HaproxyHello {
        supported_versions: vec![Version::new(2, 0)],
        max_frame_size: 1024,
        capabilities: vec![Capability::Fragmentation, Capability::Async],
        healthcheck: None,
        engine_id: Some("foobar".to_string()),
    });
    let hello_bytes = {
        let mut v = vec![1u8];
        put_metadata(&mut v, &Metadata::default());
        kv(&mut v, spoa::kv::supported_versions(&vec![Version::new(2, 0)]));
        kv(&mut v, spoa::kv::max_frame_size(1024));
        kv(
            &mut v,
            spoa::kv::capabilities(&vec![Capability::Fragmentation, Capability::Async]),
        );
        kv(&mut v, spoa::kv::engine_id("foobar"));
        v
    };
    out.push((hello, hello_bytes));

    let agent_hello = Frame::AgentHello(AgentHello {
        version: Version::new(2, 0),
        max_frame_size: 1024,
        capabilities: vec![Capability::Fragmentation, Capability::Async],
    });
    let agent_hello_bytes = {
        let mut v = vec![101u8];
        put_metadata(&mut v, &Metadata::default());
        kv(&mut v, spoa::kv::version(&Version::new(2, 0)));
        kv(&mut v, spoa::kv::max_frame_size(1024));
        kv(
            &mut v,
            spoa::kv::capabilities(&vec![Capability::Fragmentation, Capability::Async]),
        );
        v
    };
    out.push((agent_hello, agent_hello_bytes));

    let notify = Frame::HaproxyNotify(Notify {
        fragmented: true,
        stream_id: 123,
        frame_id: 456,
        messages: vec![
            Message::new(
                "client".to_string(),
                vec![
                    (
                        "frontend".to_string(),
                        Typed::String("world".to_string()),
                    ),
                    ("src".to_string(), Typed::Ipv4(Ipv4::new(127, 0, 0, 1))),
                ],
            ),
            Message::new(
                "server".to_string(),
                vec![
                    ("ip".to_string(), Typed::Ipv6(Ipv6::new(0, 0, 0, 0, 0, 0, 0, 1))),
                    ("port".to_string(), Typed::Uint32(80)),
                ],
            ),
        ],
    });
    let notify_bytes = {
        let mut v = vec![3u8];
        put_metadata(
            &mut v,
            &Metadata {
                flags: Flags { fin: false, abort: false },
                stream_id: 123,
                frame_id: 456,
            },
        );
        put_str(&mut v, "client");
        v.push(2);
        put_kv(&mut v, "frontend", &Typed::String("world".to_string()));
        put_kv(&mut v, "src", &Typed::Ipv4(Ipv4::new(127, 0, 0, 1)));
        put_str(&mut v, "server");
        v.push(2);
        put_kv(&mut v, "ip", &Typed::Ipv6(Ipv6::new(0, 0, 0, 0, 0, 0, 0, 1)));
        put_kv(&mut v, "port", &Typed::Uint32(80));
        v
    };
    out.push((notify, notify_bytes));

    let ack = Frame::AgentAck(Ack {
        fragmented: false,
        aborted: true,
        stream_id: 123,
        frame_id: 456,
        actions: vec![
            Action::set_var(
                Scope::Request,
                "foo".to_string(),
                Typed::String("bar".to_string()),
            ),
            Action::unset_var(Scope::Response, "foo".to_string()),
        ],
    });
    let ack_bytes = {
        let mut v = vec![103u8];
        put_metadata(
            &mut v,
            &Metadata {
                flags: Flags { fin: true, abort: true },
                stream_id: 123,
                frame_id: 456,
            },
        );
        put_action(
            &mut v,
            &Action::set_var(
                Scope::Request,
                "foo".to_string(),
                Typed::String("bar".to_string()),
            ),
        );
        put_action(&mut v, &Action::unset_var(Scope::Response, "foo".to_string()));
        v
    };
    out.push((ack, ack_bytes));

    let haproxy_disconnect = Frame::HaproxyDisconnect(Disconnect {
        status_code: Status::BadVersion.code(),
        message: "bad version".to_string(),
    });
    let haproxy_disconnect_bytes = {
        let mut v = vec![2u8];
        put_metadata(&mut v, &Metadata::default());
        kv(&mut v, spoa::kv::status_code(Status::BadVersion.code()));
        kv(&mut v, spoa::kv::message("bad version"));
        v
    };
    out.push((haproxy_disconnect, haproxy_disconnect_bytes));

    let agent_disconnect = Frame::AgentDisconnect(Disconnect {
        status_code: Status::BadFrameSize.code(),
        message: "bad frame size".to_string(),
    });
    let agent_disconnect_bytes = {
        let mut v = vec![102u8];
        put_metadata(&mut v, &Metadata::default());
        kv(&mut v, spoa::kv::status_code(Status::BadFrameSize.code()));
        kv(&mut v, spoa::kv::message("bad frame size"));
        v
    };
    out.push((agent_disconnect, agent_disconnect_bytes));

    out
}

fn check_frames() {
    for (f, b) in frames() {
        let mut v = Vec::new();
        put_frame(&mut v, &f);
        assert_eq!(v, b, "encode frame: {f:?} to {b:?}");
        assert_eq!(f.size(), b.len());
        assert_eq!(parse_frame(&b), Ok(f.clone()), "decode frame {f:?} from {b:?}");
    }
}

#[test]
fn buf_test_frame() {
    check_frames();
}

#[test]
fn frames_test_frame() {
    check_frames();
}

#[test]
fn parser_test_frame() {
    check_frames();
}

#[test]
fn frame_metadata_constraints() {
    // A hello whose ids are not zero is rejected.
    let mut v = vec![1u8];
    put_metadata(
        &mut v,
        &Metadata { flags: Flags { fin: true, abort: false }, stream_id: 1, frame_id: 0 },
    );
    assert_eq!(parse_frame(&v), Err(Status::Invalid));

    // A notify whose ids are zero is rejected.
    let mut v = vec![3u8];
    put_metadata(&mut v, &Metadata::default());
    assert_eq!(parse_frame(&v), Err(Status::Invalid));

    // The sentinel frame type and unknown types are rejected.
    for t in [0u8, 42u8] {
        let mut v = vec![t];
        put_metadata(&mut v, &Metadata::default());
        assert_eq!(parse_frame(&v), Err(Status::Invalid));
    }
}

#[test]
fn hello_missing_keys_name_the_error() {
    // supported-versions missing entirely.
    let mut v = vec![1u8];
    put_metadata(&mut v, &Metadata::default());
    kv(&mut v, spoa::kv::max_frame_size(1024));
    kv(&mut v, spoa::kv::capabilities(&vec![]));
    assert_eq!(parse_frame(&v), Err(Status::NoVersion));

    // max-frame-size missing.
    let mut v = vec![1u8];
    put_metadata(&mut v, &Metadata::default());
    kv(&mut v, spoa::kv::supported_versions(&vec![Version::new(2, 0)]));
    kv(&mut v, spoa::kv::capabilities(&vec![]));
    assert_eq!(parse_frame(&v), Err(Status::NoFrameSize));

    // capabilities missing.
    let mut v = vec![1u8];
    put_metadata(&mut v, &Metadata::default());
    kv(&mut v, spoa::kv::supported_versions(&vec![Version::new(2, 0)]));
    kv(&mut v, spoa::kv::max_frame_size(1024));
    assert_eq!(parse_frame(&v), Err(Status::NoCapabilities));

    // An agent hello with an unparsable version.
    let mut v = vec![101u8];
    put_metadata(&mut v, &Metadata::default());
    put_kv(&mut v, "version", &Typed::String("fish".to_string()));
    kv(&mut v, spoa::kv::max_frame_size(1024));
    kv(&mut v, spoa::kv::capabilities(&vec![]));
    assert_eq!(parse_frame(&v), Err(Status::BadVersion));
}

#[test]
fn hello_with_empty_capabilities_decodes() {
    let mut v = vec![1u8];
    put_metadata(&mut v, &Metadata::default());
    kv(&mut v, spoa::kv::supported_versions(&vec![Version::new(2, 0)]));
    kv(&mut v, spoa::kv::max_frame_size(1024));
    kv(&mut v, spoa::kv::capabilities(&vec![]));
    kv(&mut v, spoa::kv::healthcheck(true));
    let decoded = parse_frame(&v).unwrap();
    match decoded {
        Frame::HaproxyHello(h) => {
            assert_eq!(h.supported_versions, vec![Version::new(2, 0)]);
            assert_eq!(h.max_frame_size, 1024);
            assert_eq!(h.capabilities, vec![]);
            assert_eq!(h.healthcheck, Some(true));
            assert_eq!(h.engine_id, None);
        }
        other => panic!("unexpected frame {other:?}"),
    }
}

#[test]
fn metadata_accessors() {
    let md = Metadata { flags: Flags { fin: false, abort: true }, stream_id: 9, frame_id: 10 };
    assert!(!md.is_final());
    assert!(md.fragmented());
    assert!(md.aborted());
    assert_eq!(md.size(), 4 + 1 + 1);
    let big = Metadata { flags: Flags { fin: true, abort: false }, stream_id: 240, frame_id: 0 };
    assert_eq!(big.size(), 4 + 2 + 1);
}
