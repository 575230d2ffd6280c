//! Frame-level handlers: what a peer's frame means to a consumer that only
//! wants the messages of notifies, or the actions of acks.

use vstd::prelude::*;
use crate::action::Action;
use crate::frame::{Frame, FrameV, Message};
use crate::status::Status;

verus! {

/// Interprets an inbound frame on a connection waiting for notifies: a
/// notify yields its messages, a peer disconnect yields the error it named
/// (or `Unknown` for an unrecognized code), anything else is invalid.
pub fn notify_handler(frame: Frame) -> (r: Result<Option<Vec<Message>>, Status>)
    ensures
        frame matches Frame::HaproxyNotify(n) ==> (r matches Ok(m) && m matches Some(msgs)
            && crate::frame::msgs_view(msgs@) == crate::frame::msgs_view(n.messages@)),
        frame matches Frame::HaproxyDisconnect(d) ==> (r matches Err(e) && crate::status::status_code(
            e,
        ) == if (exists|s: Status| crate::status::status_code(s) == d.status_code) {
            d.status_code as u32
        } else {
            99u32
        }),
        !(frame@ matches FrameV::HaproxyNotify(_)) && !(frame@ matches FrameV::HaproxyDisconnect(
            _,
        )) ==> r == Err::<Option<Vec<Message>>, Status>(Status::Invalid),
{
    match frame {
        Frame::HaproxyNotify(n) => Ok(Some(n.messages)),
        Frame::HaproxyDisconnect(d) => {
            match Status::from_code(d.status_code) {
                Some(s) => Err(s),
                None => Err(Status::Unknown),
            }
        },
        _ => Err(Status::Invalid),
    }
}

/// Interprets an inbound frame on a connection waiting for acks: an ack
/// yields its actions, an agent disconnect yields the error it named (or
/// `Unknown`), anything else is invalid.
pub fn ack_handler(frame: Frame) -> (r: Result<Option<Vec<Action>>, Status>)
    ensures
        frame matches Frame::AgentAck(a) ==> (r matches Ok(m) && m matches Some(actions)
            && crate::action::actions_view(actions@) == crate::action::actions_view(a.actions@)),
        frame matches Frame::AgentDisconnect(d) ==> (r matches Err(e) && crate::status::status_code(
            e,
        ) == if (exists|s: Status| crate::status::status_code(s) == d.status_code) {
            d.status_code as u32
        } else {
            99u32
        }),
        !(frame@ matches FrameV::AgentAck(_)) && !(frame@ matches FrameV::AgentDisconnect(_))
            ==> r == Err::<Option<Vec<Action>>, Status>(Status::Invalid),
{
    match frame {
        Frame::AgentAck(a) => Ok(Some(a.actions)),
        Frame::AgentDisconnect(d) => {
            match Status::from_code(d.status_code) {
                Some(s) => Err(s),
                None => Err(Status::Unknown),
            }
        },
        _ => Err(Status::Invalid),
    }
}

} // verus!
