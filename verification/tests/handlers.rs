//! Frame handler tests: extracting messages from notifies and actions from
//! acks, and turning disconnects into the errors they carry.

use spoa::action::{Action, Scope};
use spoa::data::Typed;
use spoa::frame::{Frame, Message};
use spoa::handler::{ack_handler, notify_handler};
use spoa::status::Status;

#[test]
fn test_message_handler() {
    let m1 = Message::new(
        "foobar".to_string(),
        vec![
            ("foo".to_string(), Typed::Int32(123)),
            ("bar".to_string(), Typed::Int32(456)),
        ],
    );
    let cases = vec![
        (
            Frame::notify(123, 456, vec![m1.clone()]),
            Ok(Some(vec![m1.clone()])),
        ),
        (
            Frame::haproxy_disconnect(Status::Io, "some reason".to_string()),
            Err(Status::Io),
        ),
        (
            Frame::agent_disconnect(Status::Io, "some reason".to_string()),
            Err(Status::Invalid),
        ),
    ];

    for (f, res) in cases {
        assert_eq!(notify_handler(f), res);
    }
}

#[test]
fn test_action_handler() {
    let a1 = Action::set_var(
        Scope::Request,
        "foo".to_string(),
        Typed::String("bar".to_string()),
    );
    let cases = vec![
        (
            Frame::ack(123, 456, vec![a1.clone()]),
            Ok(Some(vec![a1.clone()])),
        ),
        (
            Frame::agent_disconnect(Status::Io, "some reason".to_string()),
            Err(Status::Io),
        ),
        (
            Frame::haproxy_disconnect(Status::Io, "some reason".to_string()),
            Err(Status::Invalid),
        ),
    ];

    for (f, res) in cases {
        assert_eq!(ack_handler(f), res);
    }
}

#[test]
fn disconnect_with_unknown_code_maps_to_unknown() {
    let f = Frame::HaproxyDisconnect(spoa::frame::Disconnect {
        status_code: 1234,
        message: "?".to_string(),
    });
    assert_eq!(notify_handler(f), Err(Status::Unknown));
}

#[test]
fn status_codes_round_trip() {
    let all = [
        (Status::Normal, 0),
        (Status::Io, 1),
        (Status::Timeout, 2),
        (Status::TooBig, 3),
        (Status::Invalid, 4),
        (Status::NoVersion, 5),
        (Status::NoFrameSize, 6),
        (Status::NoCapabilities, 7),
        (Status::BadVersion, 8),
        (Status::BadFrameSize, 9),
        (Status::FragmentNotSupported, 10),
        (Status::InterlacedFrames, 11),
        (Status::FrameIdNotFound, 12),
        (Status::ResourceAllocErr, 13),
        (Status::Unknown, 99),
    ];
    for (s, code) in all {
        assert_eq!(s.code(), code);
        assert_eq!(Status::from_code(code), Some(s));
    }
    assert_eq!(Status::from_code(14), None);
    assert_eq!(Status::from_code(98), None);
}
