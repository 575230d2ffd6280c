//! The per-connection state machine: Connecting until a hello arrives,
//! Processing while notifies flow, Disconnected once the conversation is
//! over.  Each step consumes one inbound frame and says what to do next;
//! performing I/O and invoking the service belong to the caller.

use vstd::prelude::*;
use crate::caps::Capability;
use crate::fragment::Reassembly;
use crate::frame::{Frame, FrameV, Message, MessageV, msgs_view};
use crate::handshake::{Handshaked, Handshaking, negotiated_ok};
use crate::status::Status;
use crate::version::Version;

verus! {

/// No version is supported by both sides.
pub open spec fn no_common_version(client: Seq<Version>, agent: Seq<Version>) -> bool {
    forall|v: Version| !(client.contains(v) && #[trigger] agent.contains(v))
}

/// Waiting for the client's hello.
#[derive(Debug, PartialEq, Eq)]
pub struct Connecting {
    pub handshaking: Handshaking,
}

/// Handshake done; notifies are being processed.
#[derive(Debug, PartialEq, Eq)]
pub struct Processing {
    /// What the handshake settled.
    pub handshaked: Handshaked,
    /// Present exactly when fragmentation was negotiated.
    pub reassembly: Option<Reassembly>,
}

/// The state of one connection.
#[derive(Debug, PartialEq, Eq)]
pub enum State {
    Connecting(Connecting),
    Processing(Processing),
    Disconnected,
}

/// What the caller must do after a step.
#[derive(Debug, PartialEq, Eq)]
pub enum Outcome {
    /// Nothing to send or do.
    NoReply,
    /// Send this frame.
    Reply(Frame),
    /// Invoke the service with these messages, then acknowledge the
    /// exchange they belong to.
    Invoke { stream_id: u64, frame_id: u64, messages: Vec<Message> },
}

impl Default for State {
    /// A fresh connection with the stock configuration.
    fn default() -> (r: State)
        ensures
            r matches State::Connecting(c),
            r.wf(),
    {
        State::new()
    }
}

impl State {
    /// The reassembly table, where present, keeps one buffer per key.
    pub open spec fn wf(&self) -> bool {
        match self {
            State::Processing(p) => match p.reassembly {
                Some(t) => t.wf(),
                None => true,
            },
            _ => true,
        }
    }

    /// A fresh connection with the stock configuration.
    pub fn new() -> (r: State)
        ensures
            r matches State::Connecting(c) && c.handshaking.supported_versions@ == seq![
                Version { major: 2u8, minor: 0u8 },
            ] && c.handshaking.max_frame_size == crate::framer::MAX_FRAME_SIZE as u32
                && c.handshaking.capabilities@ == seq![
                Capability::Fragmentation,
                Capability::Async,
                Capability::Pipelining,
            ],
            r.wf(),
    {
        State::Connecting(Connecting { handshaking: Handshaking::default() })
    }

    /// Consumes one inbound frame.
    ///
    /// In `Connecting`, only a client hello is accepted: it is negotiated
    /// against the configuration, the agent hello is the reply, and the
    /// connection moves to `Processing` — or straight to `Disconnected` for
    /// a health check.  In `Processing`, notifies are fed through the
    /// reassembly table and completed exchanges are handed out for service
    /// invocation; a client disconnect ends the conversation with `Normal`.
    /// Anything else is `Invalid`.  Errors are fatal: the caller sends one
    /// agent disconnect carrying the status and closes.
    pub fn handle_frame(self, frame: Frame) -> (r: Result<(State, Outcome), Status>)
        requires
            self.wf(),
        ensures
            r matches Ok(so) ==> so.0.wf(),
            self matches State::Disconnected ==> (r matches Ok(so) && so.0 is Disconnected && so.1
                is NoReply),
            self matches State::Connecting(c) ==> (!(frame@ matches FrameV::HaproxyHello(_)) ==> r
                == Err::<(State, Outcome), Status>(Status::Invalid)),
            self matches State::Connecting(c) ==> (frame matches Frame::HaproxyHello(h) ==> (
            no_common_version(h.supported_versions@, c.handshaking.supported_versions@) ==> r
                == Err::<(State, Outcome), Status>(Status::NoVersion))),
            self matches State::Connecting(c) ==> (frame matches Frame::HaproxyHello(h) ==> (
            !no_common_version(h.supported_versions@, c.handshaking.supported_versions@) ==> ({
                &&& r matches Ok(so)
                &&& so.1 matches Outcome::Reply(f)
                &&& f matches Frame::AgentHello(ah)
                &&& negotiated_ok(
                    h.supported_versions@,
                    h.max_frame_size,
                    h.capabilities@,
                    c.handshaking.supported_versions@,
                    c.handshaking.max_frame_size,
                    c.handshaking.capabilities@,
                    ah.version,
                    ah.max_frame_size,
                    ah.capabilities@,
                )
                &&& h.healthcheck == Some(true) ==> so.0 is Disconnected
                &&& h.healthcheck != Some(true) ==> ({
                    &&& so.0 matches State::Processing(p)
                    &&& p.handshaked.version == ah.version
                    &&& p.handshaked.max_frame_size == ah.max_frame_size
                    &&& p.handshaked.capabilities@ == ah.capabilities@
                    &&& p.reassembly is Some <==> ah.capabilities@.contains(
                        Capability::Fragmentation,
                    )
                    &&& p.reassembly matches Some(t) ==> t@ == Map::<
                        (u64, u64),
                        Seq<MessageV>,
                    >::empty()
                })
            }))),
            self matches State::Processing(p) ==> (frame@ matches FrameV::HaproxyDisconnect(_)
                ==> r == Err::<(State, Outcome), Status>(Status::Normal)),
            self matches State::Processing(p) ==> ((!(frame@ matches FrameV::HaproxyNotify(_))
                && !(frame@ matches FrameV::HaproxyDisconnect(_))) ==> r == Err::<
                (State, Outcome),
                Status,
            >(Status::Invalid)),
            self matches State::Processing(p) ==> (frame matches Frame::HaproxyNotify(n) ==> (
            p.reassembly is None && n.fragmented ==> r == Err::<(State, Outcome), Status>(
                Status::FragmentNotSupported,
            ))),
            self matches State::Processing(p) ==> (frame matches Frame::HaproxyNotify(n) ==> (
            p.reassembly is None && !n.fragmented ==> ({
                &&& r matches Ok(so)
                &&& so.0 matches State::Processing(p2)
                &&& p2.handshaked == p.handshaked
                &&& p2.reassembly is None
                &&& so.1 matches Outcome::Invoke { stream_id, frame_id, messages }
                &&& stream_id == n.stream_id
                &&& frame_id == n.frame_id
                &&& msgs_view(messages@) == msgs_view(n.messages@)
            }))),
            self matches State::Processing(p) ==> (frame matches Frame::HaproxyNotify(n) ==> (
            p.reassembly matches Some(t) ==> (n.fragmented ==> ({
                &&& r matches Ok(so)
                &&& so.0 matches State::Processing(p2)
                &&& p2.handshaked == p.handshaked
                &&& p2.reassembly matches Some(t2)
                &&& so.1 is NoReply
                &&& t2@ == (if t@.contains_key((n.stream_id, n.frame_id)) {
                    t@.insert(
                        (n.stream_id, n.frame_id),
                        t@[(n.stream_id, n.frame_id)] + msgs_view(n.messages@),
                    )
                } else {
                    t@.insert((n.stream_id, n.frame_id), msgs_view(n.messages@))
                })
            })))),
            self matches State::Processing(p) ==> (frame matches Frame::HaproxyNotify(n) ==> (
            p.reassembly matches Some(t) ==> (!n.fragmented ==> ({
                &&& r matches Ok(so)
                &&& so.0 matches State::Processing(p2)
                &&& p2.handshaked == p.handshaked
                &&& p2.reassembly matches Some(t2)
                &&& t2@ == t@.remove((n.stream_id, n.frame_id))
                &&& so.1 matches Outcome::Invoke { stream_id, frame_id, messages }
                &&& stream_id == n.stream_id
                &&& frame_id == n.frame_id
                &&& msgs_view(messages@) == (if t@.contains_key((n.stream_id, n.frame_id)) {
                    t@[(n.stream_id, n.frame_id)] + msgs_view(n.messages@)
                } else {
                    msgs_view(n.messages@)
                })
            })))),
    {
        match self {
            State::Disconnected => Ok((State::Disconnected, Outcome::NoReply)),
            State::Connecting(c) => {
                match frame {
                    Frame::HaproxyHello(h) => {
                        let healthcheck = match h.healthcheck {
                            Some(x) => x,
                            None => false,
                        };
                        let handshaked = match c.handshaking.handshake(&h) {
                            Ok(n) => n,
                            Err(e) => {
                                return Err(e);
                            },
                        };
                        let reply = Frame::AgentHello(handshaked.agent_hello());
                        if healthcheck {
                            Ok((State::Disconnected, Outcome::Reply(reply)))
                        } else {
                            let reassembly = if handshaked.supports_fragmentation() {
                                Some(Reassembly::new())
                            } else {
                                None
                            };
                            Ok(
                                (
                                    State::Processing(Processing { handshaked, reassembly }),
                                    Outcome::Reply(reply),
                                ),
                            )
                        }
                    },
                    _ => Err(Status::Invalid),
                }
            },
            State::Processing(p) => {
                match frame {
                    Frame::HaproxyNotify(n) => {
                        let Processing { handshaked, reassembly } = p;
                        match reassembly {
                            None => {
                                if n.fragmented {
                                    Err(Status::FragmentNotSupported)
                                } else {
                                    Ok(
                                        (
                                            State::Processing(
                                                Processing { handshaked, reassembly: None },
                                            ),
                                            Outcome::Invoke {
                                                stream_id: n.stream_id,
                                                frame_id: n.frame_id,
                                                messages: n.messages,
                                            },
                                        ),
                                    )
                                }
                            },
                            Some(mut t) => {
                                let out = t.reassemble(
                                    n.fragmented,
                                    n.stream_id,
                                    n.frame_id,
                                    n.messages,
                                );
                                let next = State::Processing(
                                    Processing { handshaked, reassembly: Some(t) },
                                );
                                match out {
                                    None => Ok((next, Outcome::NoReply)),
                                    Some(messages) => Ok(
                                        (
                                            next,
                                            Outcome::Invoke {
                                                stream_id: n.stream_id,
                                                frame_id: n.frame_id,
                                                messages,
                                            },
                                        ),
                                    ),
                                }
                            },
                        }
                    },
                    Frame::HaproxyDisconnect(_) => Err(Status::Normal),
                    _ => Err(Status::Invalid),
                }
            },
        }
    }

    /// The disconnect frame a fatal status is reported with.
    pub fn disconnect_frame(status: Status, reason: String) -> (r: Frame)
        ensures
            r matches Frame::AgentDisconnect(d) && d.status_code == crate::status::status_code(
                status,
            ) && d.message@ == reason@,
    {
        Frame::agent_disconnect(status, reason)
    }
}

} // verus!
