//! Frames exchanged between HAProxy and the agent: their types, the metadata
//! triple, payload models, and the byte-level wire form of every frame.

use vstd::prelude::*;
use crate::action::{Action, ActionV, actions_enc, actions_dec, actions_valid, actions_view};
use crate::caps::{Capability, render_caps, parse_caps};
use crate::data::{self, Typed, TypedV};
use crate::status::Status;
use crate::varint;
use crate::version::{Version, render_version, parse_version, render_versions, parse_versions};
use crate::wire;

verus! {

/// Frame type tags.
#[derive(Clone, Copy, Debug, PartialEq, Eq, Structural)]
pub enum Type {
    /// Sentinel for continuation frames of a fragmented payload.
    Unset,
    /// Sent by HAProxy when it opens a connection to an agent.
    HaproxyHello,
    /// Sent by HAProxy to close the connection, or in reply to an agent
    /// disconnect.
    HaproxyDisconnect,
    /// Sent by HAProxy to pass messages to the agent.
    HaproxyNotify,
    /// The agent's reply finishing the handshake.
    AgentHello,
    /// Sent by the agent just before closing the connection.
    AgentDisconnect,
    /// The agent's acknowledgement of a notify.
    AgentAck,
}

pub open spec fn frame_type_code(t: Type) -> u8 {
    match t {
        Type::Unset => 0,
        Type::HaproxyHello => 1,
        Type::HaproxyDisconnect => 2,
        Type::HaproxyNotify => 3,
        Type::AgentHello => 101,
        Type::AgentDisconnect => 102,
        Type::AgentAck => 103,
    }
}

impl Type {
    /// The byte this frame type is sent as.
    pub fn code(self) -> (r: u8)
        ensures
            r == frame_type_code(self),
    {
        match self {
            Type::Unset => 0,
            Type::HaproxyHello => 1,
            Type::HaproxyDisconnect => 2,
            Type::HaproxyNotify => 3,
            Type::AgentHello => 101,
            Type::AgentDisconnect => 102,
            Type::AgentAck => 103,
        }
    }
}

/// The two defined frame flag bits.
#[derive(Clone, Copy, Debug, PartialEq, Eq, Structural)]
pub struct Flags {
    /// This is the final payload fragment.
    pub fin: bool,
    /// Processing of the current frame must be cancelled.
    pub abort: bool,
}

/// The 32-bit field the flags are sent as: bit 0 is FIN, bit 1 is ABORT.
pub open spec fn flags_bits(f: Flags) -> u32 {
    ((if f.fin {
        1int
    } else {
        0int
    }) + (if f.abort {
        2int
    } else {
        0int
    })) as u32
}

/// The flags a 32-bit field denotes; reserved bits are ignored.
pub open spec fn flags_of_bits(x: u32) -> Flags {
    Flags { fin: x % 2 == 1, abort: (x / 2) % 2 == 1 }
}

/// The metadata triple every frame carries.
#[derive(Clone, Copy, Debug, PartialEq, Eq, Structural)]
pub struct Metadata {
    pub flags: Flags,
    pub stream_id: u64,
    pub frame_id: u64,
}

/// Metadata of frames outside a notify/ack exchange: FIN set, both ids zero.
pub open spec fn meta_default() -> Metadata {
    Metadata { flags: Flags { fin: true, abort: false }, stream_id: 0, frame_id: 0 }
}

impl Default for Metadata {
    /// Metadata of frames outside a notify/ack exchange.
    fn default() -> (r: Metadata)
        ensures
            r == meta_default(),
    {
        Metadata { flags: Flags { fin: true, abort: false }, stream_id: 0, frame_id: 0 }
    }
}

impl Metadata {
    /// This is the final payload fragment.
    pub fn is_final(&self) -> (r: bool)
        ensures
            r == self.flags.fin,
    {
        self.flags.fin
    }

    /// This is a non-final payload fragment.
    pub fn fragmented(&self) -> (r: bool)
        ensures
            r == !self.flags.fin,
    {
        !self.flags.fin
    }

    /// Processing of the current frame must be cancelled.
    pub fn aborted(&self) -> (r: bool)
        ensures
            r == self.flags.abort,
    {
        self.flags.abort
    }

    /// Number of bytes of the metadata's wire form.
    pub fn size(&self) -> (r: usize)
        ensures
            r == meta_enc(*self).len(),
    {
        proof {
            varint::lemma_varint_enc_len(self.stream_id);
            varint::lemma_varint_enc_len(self.frame_id);
        }
        4 + varint::size_of(self.stream_id) + varint::size_of(self.frame_id)
    }
}

/// Wire form of the metadata: flags as a big-endian 32-bit field, then the
/// stream and frame ids as varints.
pub open spec fn meta_enc(md: Metadata) -> Seq<u8> {
    wire::u32_be_enc(flags_bits(md.flags)) + varint::varint_enc(md.stream_id)
        + varint::varint_enc(md.frame_id)
}

/// The metadata at the front of `b` and the bytes it occupies.
pub open spec fn meta_dec(b: Seq<u8>) -> Option<(Metadata, int)> {
    match wire::u32_be_dec(b) {
        None => None,
        Some(x) => match varint::varint_dec(b.skip(4)) {
            Some(sk) => match varint::varint_dec(b.skip(4 + sk.1)) {
                Some(fk) => Some(
                    (
                        Metadata {
                            flags: flags_of_bits(x),
                            stream_id: sk.0,
                            frame_id: fk.0,
                        },
                        4 + sk.1 + fk.1,
                    ),
                ),
                None => None,
            },
            None => None,
        },
    }
}

pub proof fn lemma_meta_round_trip(md: Metadata, rest: Seq<u8>)
    ensures
        meta_dec(meta_enc(md) + rest) == Some((md, meta_enc(md).len() as int)),
        meta_enc(md).len() >= 6,
{
    let b = meta_enc(md) + rest;
    let x = flags_bits(md.flags);
    wire::lemma_u32_be_round_trip(x, varint::varint_enc(md.stream_id) + (varint::varint_enc(
        md.frame_id,
    ) + rest));
    assert(b =~= wire::u32_be_enc(x) + (varint::varint_enc(md.stream_id) + (varint::varint_enc(
        md.frame_id,
    ) + rest)));
    varint::lemma_varint_round_trip(md.stream_id, varint::varint_enc(md.frame_id) + rest);
    assert(b.skip(4) =~= varint::varint_enc(md.stream_id) + (varint::varint_enc(md.frame_id)
        + rest));
    varint::lemma_varint_round_trip(md.frame_id, rest);
    assert(b.skip(4 + varint::varint_enc(md.stream_id).len() as int) =~= varint::varint_enc(
        md.frame_id,
    ) + rest);
    assert(flags_of_bits(flags_bits(md.flags)) == md.flags);
    varint::lemma_varint_enc_len(md.stream_id);
    varint::lemma_varint_enc_len(md.frame_id);
}

/// A named message carried by a notify frame.
#[derive(Clone, Debug, PartialEq, Eq)]
pub struct Message {
    /// The message's name.
    pub name: String,
    /// Its arguments, in order.
    pub args: Vec<(String, Typed)>,
}

/// The mathematical model of a message.
pub struct MessageV {
    pub name: Seq<char>,
    pub args: Seq<(Seq<char>, TypedV)>,
}

impl View for Message {
    type V = MessageV;

    open spec fn view(&self) -> MessageV {
        MessageV { name: self.name@, args: data::kvs_view(self.args@) }
    }
}

impl Message {
    /// Builds a message from its name and arguments.
    pub fn new(name: String, args: Vec<(String, Typed)>) -> (r: Message)
        ensures
            r@.name == name@,
            r@.args == data::kvs_view(args@),
    {
        Message { name, args }
    }
}

/// Wire form of a message: its name, the argument count on one byte, then
/// the arguments.
pub open spec fn msg_enc(m: MessageV) -> Seq<u8> {
    wire::str_enc(m.name) + seq![m.args.len() as u8] + data::kvs_enc(m.args)
}

/// The message at the front of `b` and the bytes it occupies.
pub open spec fn msg_dec(b: Seq<u8>) -> Option<(MessageV, int)> {
    match wire::str_dec(b) {
        None => None,
        Some(sk) => {
            let b2 = b.skip(sk.1);
            if b2.len() == 0 {
                None
            } else {
                match data::kvn_dec(b2.skip(1), b2[0] as nat) {
                    Some(ak) => Some((MessageV { name: sk.0, args: ak.0 }, sk.1 + 1 + ak.1)),
                    None => None,
                }
            }
        },
    }
}

pub open spec fn msg_valid(m: MessageV) -> bool {
    &&& vstd::utf8::encode_utf8(m.name).len() <= u64::MAX
    &&& m.args.len() <= 255
    &&& data::kvs_valid(m.args)
}

pub proof fn lemma_msg_round_trip(m: MessageV, rest: Seq<u8>)
    requires
        msg_valid(m),
    ensures
        msg_dec(msg_enc(m) + rest) == Some((m, msg_enc(m).len() as int)),
        msg_enc(m).len() >= 2,
{
    let b = msg_enc(m) + rest;
    wire::lemma_str_round_trip(m.name, seq![m.args.len() as u8] + (data::kvs_enc(m.args) + rest));
    assert(b =~= wire::str_enc(m.name) + (seq![m.args.len() as u8] + (data::kvs_enc(m.args)
        + rest)));
    let k1 = wire::str_enc(m.name).len() as int;
    let b2 = b.skip(k1);
    assert(b2 =~= seq![m.args.len() as u8] + (data::kvs_enc(m.args) + rest));
    assert(b2[0] == m.args.len() as u8);
    data::lemma_kvn_round_trip(m.args, rest);
    assert(b2.skip(1) =~= data::kvs_enc(m.args) + rest);
}

/// Wire form of a message list, one message after another.
pub open spec fn msgs_enc(msgs: Seq<MessageV>) -> Seq<u8>
    decreases msgs.len(),
{
    if msgs.len() == 0 {
        Seq::empty()
    } else {
        msg_enc(msgs[0]) + msgs_enc(msgs.skip(1))
    }
}

/// The messages that fill `b` exactly.
pub open spec fn msgs_dec(b: Seq<u8>) -> Option<Seq<MessageV>>
    decreases b.len(),
{
    if b.len() == 0 {
        Some(Seq::empty())
    } else {
        match msg_dec(b) {
            Some(mk) => {
                if 0 < mk.1 <= b.len() {
                    match msgs_dec(b.skip(mk.1)) {
                        Some(rest) => Some(seq![mk.0] + rest),
                        None => None,
                    }
                } else {
                    None
                }
            },
            None => None,
        }
    }
}

pub open spec fn msgs_valid(msgs: Seq<MessageV>) -> bool {
    forall|i: int| 0 <= i < msgs.len() ==> msg_valid(#[trigger] msgs[i])
}

#[verifier::rlimit(50)]
pub proof fn lemma_msgs_round_trip(msgs: Seq<MessageV>)
    requires
        msgs_valid(msgs),
    ensures
        msgs_dec(msgs_enc(msgs)) == Some(msgs),
    decreases msgs.len(),
{
    if msgs.len() == 0 {
        assert(msgs =~= Seq::<MessageV>::empty());
    } else {
        assert(msgs_valid(msgs.skip(1))) by {
            assert(forall|i: int|
                0 <= i < msgs.skip(1).len() ==> msgs.skip(1)[i] == #[trigger] msgs[i + 1]);
        }
        lemma_msgs_round_trip(msgs.skip(1));
        let rest = msgs_enc(msgs.skip(1));
        lemma_msg_round_trip(msgs[0], rest);
        let b = msgs_enc(msgs);
        let k = msg_enc(msgs[0]).len() as int;
        assert(b.skip(k) =~= rest);
        assert(seq![msgs[0]] + msgs.skip(1) =~= msgs);
    }
}

/// View of an executable message list.
pub open spec fn msgs_view(msgs: Seq<Message>) -> Seq<MessageV> {
    msgs.map(|i: int, m: Message| m@)
}

/// The first frame HAProxy sends on a connection.
#[derive(Clone, Debug, PartialEq, Eq)]
pub struct HaproxyHello {
    /// The SPOP versions HAProxy supports.
    pub supported_versions: Vec<Version>,
    /// The largest frame HAProxy accepts.
    pub max_frame_size: u32,
    /// The capabilities HAProxy supports.
    pub capabilities: Vec<Capability>,
    /// Set when this hello belongs to a health check.
    pub healthcheck: Option<bool>,
    /// A string identifying the SPOE engine.
    pub engine_id: Option<String>,
}

/// The mathematical model of an inbound hello.
pub struct HaproxyHelloV {
    pub supported_versions: Seq<Version>,
    pub max_frame_size: u32,
    pub capabilities: Seq<Capability>,
    pub healthcheck: Option<bool>,
    pub engine_id: Option<Seq<char>>,
}

impl View for HaproxyHello {
    type V = HaproxyHelloV;

    open spec fn view(&self) -> HaproxyHelloV {
        HaproxyHelloV {
            supported_versions: self.supported_versions@,
            max_frame_size: self.max_frame_size,
            capabilities: self.capabilities@,
            healthcheck: self.healthcheck,
            engine_id: match self.engine_id {
                Some(ref s) => Some(s@),
                None => None,
            },
        }
    }
}

/// The agent's reply finishing the handshake.
#[derive(Clone, Debug, PartialEq, Eq)]
pub struct AgentHello {
    /// The version the agent settles on.
    pub version: Version,
    /// The largest frame the agent accepts.
    pub max_frame_size: u32,
    /// The capabilities the agent retains.
    pub capabilities: Vec<Capability>,
}

/// The mathematical model of an agent hello.
pub struct AgentHelloV {
    pub version: Version,
    pub max_frame_size: u32,
    pub capabilities: Seq<Capability>,
}

impl View for AgentHello {
    type V = AgentHelloV;

    open spec fn view(&self) -> AgentHelloV {
        AgentHelloV {
            version: self.version,
            max_frame_size: self.max_frame_size,
            capabilities: self.capabilities@,
        }
    }
}

/// Sent by either side to describe why it is closing the connection.
#[derive(Clone, Debug, PartialEq, Eq)]
pub struct Disconnect {
    /// The code of the error being reported.
    pub status_code: u32,
    /// A human-readable description.
    pub message: String,
}

/// The mathematical model of a disconnect.
pub struct DisconnectV {
    pub status_code: u32,
    pub message: Seq<char>,
}

impl View for Disconnect {
    type V = DisconnectV;

    open spec fn view(&self) -> DisconnectV {
        DisconnectV { status_code: self.status_code, message: self.message@ }
    }
}

impl Disconnect {
    /// Builds a disconnect reporting `status` with the given reason.
    pub fn new(status: Status, reason: String) -> (r: Disconnect)
        ensures
            r@.status_code == crate::status::status_code(status),
            r@.message == reason@,
    {
        Disconnect { status_code: status.code(), message: reason }
    }
}

/// Messages passed to the agent inside a notify frame.
#[derive(Clone, Debug, PartialEq, Eq)]
pub struct Notify {
    /// More fragments of this payload follow.
    pub fragmented: bool,
    pub stream_id: u64,
    pub frame_id: u64,
    pub messages: Vec<Message>,
}

/// The mathematical model of a notify.
pub struct NotifyV {
    pub fragmented: bool,
    pub stream_id: u64,
    pub frame_id: u64,
    pub messages: Seq<MessageV>,
}

impl View for Notify {
    type V = NotifyV;

    open spec fn view(&self) -> NotifyV {
        NotifyV {
            fragmented: self.fragmented,
            stream_id: self.stream_id,
            frame_id: self.frame_id,
            messages: msgs_view(self.messages@),
        }
    }
}

impl Notify {
    /// The metadata this notify is sent under.
    pub fn metadata(&self) -> (r: Metadata)
        ensures
            r == notify_meta(self@),
    {
        Metadata {
            flags: Flags { fin: !self.fragmented, abort: false },
            stream_id: self.stream_id,
            frame_id: self.frame_id,
        }
    }
}

/// Actions returned by the agent inside an ack frame.
#[derive(Clone, Debug, PartialEq, Eq)]
pub struct Ack {
    /// More fragments of this payload follow.
    pub fragmented: bool,
    /// Processing of the stream was cancelled.
    pub aborted: bool,
    pub stream_id: u64,
    pub frame_id: u64,
    pub actions: Vec<Action>,
}

/// The mathematical model of an ack.
pub struct AckV {
    pub fragmented: bool,
    pub aborted: bool,
    pub stream_id: u64,
    pub frame_id: u64,
    pub actions: Seq<ActionV>,
}

impl View for Ack {
    type V = AckV;

    open spec fn view(&self) -> AckV {
        AckV {
            fragmented: self.fragmented,
            aborted: self.aborted,
            stream_id: self.stream_id,
            frame_id: self.frame_id,
            actions: actions_view(self.actions@),
        }
    }
}

impl Ack {
    /// An ack for the given exchange, with no actions yet.
    pub fn new(stream_id: u64, frame_id: u64) -> (r: Ack)
        ensures
            r@ == (AckV {
                fragmented: false,
                aborted: false,
                stream_id,
                frame_id,
                actions: Seq::<ActionV>::empty(),
            }),
    {
        let r = Ack { fragmented: false, aborted: false, stream_id, frame_id, actions: Vec::new() };
        assert(actions_view(r.actions@) =~= Seq::<ActionV>::empty());
        r
    }

    /// The metadata this ack is sent under.
    pub fn metadata(&self) -> (r: Metadata)
        ensures
            r == ack_meta(self@),
    {
        Metadata {
            flags: Flags { fin: !self.fragmented, abort: self.aborted },
            stream_id: self.stream_id,
            frame_id: self.frame_id,
        }
    }
}

pub open spec fn notify_meta(n: NotifyV) -> Metadata {
    Metadata {
        flags: Flags { fin: !n.fragmented, abort: false },
        stream_id: n.stream_id,
        frame_id: n.frame_id,
    }
}

pub open spec fn ack_meta(a: AckV) -> Metadata {
    Metadata {
        flags: Flags { fin: !a.fragmented, abort: a.aborted },
        stream_id: a.stream_id,
        frame_id: a.frame_id,
    }
}

/// A frame sent by HAProxy or by the agent.
#[derive(Clone, Debug, PartialEq, Eq)]
pub enum Frame {
    /// Sentinel for continuation frames of a fragmented payload.
    Unset,
    HaproxyHello(HaproxyHello),
    HaproxyDisconnect(Disconnect),
    HaproxyNotify(Notify),
    AgentHello(AgentHello),
    AgentDisconnect(Disconnect),
    AgentAck(Ack),
}

/// The mathematical model of a frame.
pub enum FrameV {
    Unset,
    HaproxyHello(HaproxyHelloV),
    HaproxyDisconnect(DisconnectV),
    HaproxyNotify(NotifyV),
    AgentHello(AgentHelloV),
    AgentDisconnect(DisconnectV),
    AgentAck(AckV),
}

impl View for Frame {
    type V = FrameV;

    open spec fn view(&self) -> FrameV {
        match self {
            Frame::Unset => FrameV::Unset,
            Frame::HaproxyHello(h) => FrameV::HaproxyHello(h@),
            Frame::HaproxyDisconnect(d) => FrameV::HaproxyDisconnect(d@),
            Frame::HaproxyNotify(n) => FrameV::HaproxyNotify(n@),
            Frame::AgentHello(h) => FrameV::AgentHello(h@),
            Frame::AgentDisconnect(d) => FrameV::AgentDisconnect(d@),
            Frame::AgentAck(a) => FrameV::AgentAck(a@),
        }
    }
}

impl Frame {
    /// The type tag of this frame.
    pub fn frame_type(&self) -> (r: Type)
        ensures
            r == spec_frame_type(self@),
    {
        match self {
            Frame::Unset => Type::Unset,
            Frame::HaproxyHello(_) => Type::HaproxyHello,
            Frame::HaproxyDisconnect(_) => Type::HaproxyDisconnect,
            Frame::HaproxyNotify(_) => Type::HaproxyNotify,
            Frame::AgentHello(_) => Type::AgentHello,
            Frame::AgentDisconnect(_) => Type::AgentDisconnect,
            Frame::AgentAck(_) => Type::AgentAck,
        }
    }

    /// The metadata of a notify or ack; other frames are sent under the
    /// default metadata.
    pub fn metadata(&self) -> (r: Option<Metadata>)
        ensures
            r == match self@ {
                FrameV::HaproxyNotify(n) => Some(notify_meta(n)),
                FrameV::AgentAck(a) => Some(ack_meta(a)),
                _ => None::<Metadata>,
            },
    {
        match self {
            Frame::HaproxyNotify(n) => Some(n.metadata()),
            Frame::AgentAck(a) => Some(a.metadata()),
            _ => None,
        }
    }

    /// A non-fragmented notify for the given exchange.
    pub fn notify(stream_id: u64, frame_id: u64, messages: Vec<Message>) -> (r: Frame)
        ensures
            r@ == FrameV::HaproxyNotify(
                NotifyV {
                    fragmented: false,
                    stream_id,
                    frame_id,
                    messages: msgs_view(messages@),
                },
            ),
    {
        Frame::HaproxyNotify(Notify { fragmented: false, stream_id, frame_id, messages })
    }

    /// A final, non-aborted ack for the given exchange.
    pub fn ack(stream_id: u64, frame_id: u64, actions: Vec<Action>) -> (r: Frame)
        ensures
            r@ == FrameV::AgentAck(
                AckV {
                    fragmented: false,
                    aborted: false,
                    stream_id,
                    frame_id,
                    actions: actions_view(actions@),
                },
            ),
    {
        Frame::AgentAck(Ack { fragmented: false, aborted: false, stream_id, frame_id, actions })
    }

    /// A disconnect frame from the agent reporting `status`.
    pub fn agent_disconnect(status: Status, reason: String) -> (r: Frame)
        ensures
            r@ matches FrameV::AgentDisconnect(d) && d.status_code == crate::status::status_code(
                status,
            ) && d.message == reason@,
    {
        Frame::AgentDisconnect(Disconnect::new(status, reason))
    }

    /// A disconnect frame from HAProxy reporting `status`.
    pub fn haproxy_disconnect(status: Status, reason: String) -> (r: Frame)
        ensures
            r@ matches FrameV::HaproxyDisconnect(d) && d.status_code == crate::status::status_code(
                status,
            ) && d.message == reason@,
    {
        Frame::HaproxyDisconnect(Disconnect::new(status, reason))
    }
}

pub open spec fn spec_frame_type(f: FrameV) -> Type {
    match f {
        FrameV::Unset => Type::Unset,
        FrameV::HaproxyHello(_) => Type::HaproxyHello,
        FrameV::HaproxyDisconnect(_) => Type::HaproxyDisconnect,
        FrameV::HaproxyNotify(_) => Type::HaproxyNotify,
        FrameV::AgentHello(_) => Type::AgentHello,
        FrameV::AgentDisconnect(_) => Type::AgentDisconnect,
        FrameV::AgentAck(_) => Type::AgentAck,
    }
}

/// The key-value entries of an inbound hello payload, in the order they are
/// written.
pub open spec fn haproxy_hello_kvs(h: HaproxyHelloV) -> Seq<(Seq<char>, TypedV)> {
    seq![
        ("supported-versions"@, TypedV::Str(render_versions(h.supported_versions))),
        ("max-frame-size"@, TypedV::Uint32(h.max_frame_size)),
        ("capabilities"@, TypedV::Str(render_caps(h.capabilities))),
    ] + (match h.healthcheck {
        Some(x) => seq![("healthcheck"@, TypedV::Boolean(x))],
        None => Seq::empty(),
    }) + (match h.engine_id {
        Some(s) => seq![("engine-id"@, TypedV::Str(s))],
        None => Seq::empty(),
    })
}

/// The key-value entries of an agent hello payload.
pub open spec fn agent_hello_kvs(h: AgentHelloV) -> Seq<(Seq<char>, TypedV)> {
    seq![
        ("version"@, TypedV::Str(render_version(h.version))),
        ("max-frame-size"@, TypedV::Uint32(h.max_frame_size)),
        ("capabilities"@, TypedV::Str(render_caps(h.capabilities))),
    ]
}

/// The key-value entries of a disconnect payload.
pub open spec fn disconnect_kvs(d: DisconnectV) -> Seq<(Seq<char>, TypedV)> {
    seq![("status-code"@, TypedV::Uint32(d.status_code)), ("message"@, TypedV::Str(d.message))]
}

/// Wire form of a whole frame: type byte, metadata, payload.
pub open spec fn frame_enc(f: FrameV) -> Seq<u8> {
    match f {
        FrameV::Unset => seq![0u8] + meta_enc(meta_default()),
        FrameV::HaproxyHello(h) => seq![1u8] + meta_enc(meta_default()) + data::kvs_enc(
            haproxy_hello_kvs(h),
        ),
        FrameV::HaproxyDisconnect(d) => seq![2u8] + meta_enc(meta_default()) + data::kvs_enc(
            disconnect_kvs(d),
        ),
        FrameV::HaproxyNotify(n) => seq![3u8] + meta_enc(notify_meta(n)) + msgs_enc(n.messages),
        FrameV::AgentHello(h) => seq![101u8] + meta_enc(meta_default()) + data::kvs_enc(
            agent_hello_kvs(h),
        ),
        FrameV::AgentDisconnect(d) => seq![102u8] + meta_enc(meta_default()) + data::kvs_enc(
            disconnect_kvs(d),
        ),
        FrameV::AgentAck(a) => seq![103u8] + meta_enc(ack_meta(a)) + actions_enc(a.actions),
    }
}

pub open spec fn lookup_string(kvs: Seq<(Seq<char>, TypedV)>, key: Seq<char>) -> Option<Seq<char>> {
    match data::kv_lookup(kvs, key) {
        Some(TypedV::Str(s)) => Some(s),
        _ => None,
    }
}

pub open spec fn lookup_uint(kvs: Seq<(Seq<char>, TypedV)>, key: Seq<char>) -> Option<u64> {
    match data::kv_lookup(kvs, key) {
        Some(TypedV::Int32(n)) => Some(n as u64),
        Some(TypedV::Uint32(n)) => Some(n as u64),
        Some(TypedV::Int64(n)) => Some(n as u64),
        Some(TypedV::Uint64(n)) => Some(n),
        _ => None,
    }
}

pub open spec fn lookup_bool(kvs: Seq<(Seq<char>, TypedV)>, key: Seq<char>) -> Option<bool> {
    match data::kv_lookup(kvs, key) {
        Some(TypedV::Boolean(b)) => Some(b),
        _ => None,
    }
}

/// The inbound hello a key-value list denotes, or the error naming what is
/// missing or malformed.
pub open spec fn hello_from_kvs(kvs: Seq<(Seq<char>, TypedV)>) -> Result<HaproxyHelloV, Status> {
    match lookup_string(kvs, "supported-versions"@) {
        None => Err(Status::NoVersion),
        Some(vstr) => match parse_versions(vstr) {
            None => Err(Status::Invalid),
            Some(vs) => match lookup_uint(kvs, "max-frame-size"@) {
                None => Err(Status::NoFrameSize),
                Some(mfs) => match lookup_string(kvs, "capabilities"@) {
                    None => Err(Status::NoCapabilities),
                    Some(cstr) => match parse_caps(cstr) {
                        None => Err(Status::Invalid),
                        Some(cs) => Ok(
                            HaproxyHelloV {
                                supported_versions: vs,
                                max_frame_size: mfs as u32,
                                capabilities: cs,
                                healthcheck: lookup_bool(kvs, "healthcheck"@),
                                engine_id: lookup_string(kvs, "engine-id"@),
                            },
                        ),
                    },
                },
            },
        },
    }
}

/// The agent hello a key-value list denotes.
pub open spec fn agent_hello_from_kvs(kvs: Seq<(Seq<char>, TypedV)>) -> Result<
    AgentHelloV,
    Status,
> {
    match lookup_string(kvs, "version"@) {
        None => Err(Status::NoVersion),
        Some(vstr) => match parse_version(vstr) {
            None => Err(Status::BadVersion),
            Some(v) => match lookup_uint(kvs, "max-frame-size"@) {
                None => Err(Status::NoFrameSize),
                Some(mfs) => match lookup_string(kvs, "capabilities"@) {
                    None => Err(Status::NoCapabilities),
                    Some(cstr) => match parse_caps(cstr) {
                        None => Err(Status::Invalid),
                        Some(cs) => Ok(
                            AgentHelloV {
                                version: v,
                                max_frame_size: mfs as u32,
                                capabilities: cs,
                            },
                        ),
                    },
                },
            },
        },
    }
}

/// The disconnect a key-value list denotes; missing entries default to code
/// zero and an empty message.
pub open spec fn disconnect_from_kvs(kvs: Seq<(Seq<char>, TypedV)>) -> DisconnectV {
    DisconnectV {
        status_code: match lookup_uint(kvs, "status-code"@) {
            Some(n) => n as u32,
            None => 0,
        },
        message: match lookup_string(kvs, "message"@) {
            Some(s) => s,
            None => Seq::empty(),
        },
    }
}

/// The frame a byte string denotes, or the error its rejection reports.
/// Hello and disconnect frames must carry zero stream and frame ids, notify
/// and ack frames non-zero ones; unknown frame types and the `Unset`
/// sentinel are invalid, as is any malformed payload.
pub open spec fn frame_dec(b: Seq<u8>) -> Result<FrameV, Status> {
    if b.len() == 0 {
        Err(Status::Invalid)
    } else {
        match meta_dec(b.skip(1)) {
            None => Err(Status::Invalid),
            Some(mk) => {
                let md = mk.0;
                let payload = b.skip(1 + mk.1);
                let t = b[0];
                if t == 1 || t == 101 {
                    if md.stream_id == 0 && md.frame_id == 0 {
                        match data::kvs_dec(payload) {
                            None => Err(Status::Invalid),
                            Some(kvs) => {
                                if t == 1 {
                                    match hello_from_kvs(kvs) {
                                        Ok(h) => Ok(FrameV::HaproxyHello(h)),
                                        Err(e) => Err(e),
                                    }
                                } else {
                                    match agent_hello_from_kvs(kvs) {
                                        Ok(h) => Ok(FrameV::AgentHello(h)),
                                        Err(e) => Err(e),
                                    }
                                }
                            },
                        }
                    } else {
                        Err(Status::Invalid)
                    }
                } else if t == 2 || t == 102 {
                    if md.stream_id == 0 && md.frame_id == 0 {
                        match data::kvs_dec(payload) {
                            None => Err(Status::Invalid),
                            Some(kvs) => {
                                if t == 2 {
                                    Ok(FrameV::HaproxyDisconnect(disconnect_from_kvs(kvs)))
                                } else {
                                    Ok(FrameV::AgentDisconnect(disconnect_from_kvs(kvs)))
                                }
                            },
                        }
                    } else {
                        Err(Status::Invalid)
                    }
                } else if t == 3 {
                    if md.stream_id != 0 && md.frame_id != 0 {
                        match msgs_dec(payload) {
                            None => Err(Status::Invalid),
                            Some(msgs) => Ok(
                                FrameV::HaproxyNotify(
                                    NotifyV {
                                        fragmented: !md.flags.fin,
                                        stream_id: md.stream_id,
                                        frame_id: md.frame_id,
                                        messages: msgs,
                                    },
                                ),
                            ),
                        }
                    } else {
                        Err(Status::Invalid)
                    }
                } else if t == 103 {
                    if md.stream_id != 0 && md.frame_id != 0 {
                        match actions_dec(payload) {
                            None => Err(Status::Invalid),
                            Some(actions) => Ok(
                                FrameV::AgentAck(
                                    AckV {
                                        fragmented: !md.flags.fin,
                                        aborted: md.flags.abort,
                                        stream_id: md.stream_id,
                                        frame_id: md.frame_id,
                                        actions,
                                    },
                                ),
                            ),
                        }
                    } else {
                        Err(Status::Invalid)
                    }
                } else {
                    Err(Status::Invalid)
                }
            },
        }
    }
}

/// Structural bounds under which a frame has a wire form that decodes back
/// to it: ids respect the frame kind, counts fit their wire fields, and the
/// `Unset` sentinel is excluded because decoders reject it.
pub open spec fn frame_valid(f: FrameV) -> bool {
    match f {
        FrameV::Unset => false,
        FrameV::HaproxyHello(h) => {
            &&& h.supported_versions.len() >= 1
            &&& vstd::utf8::encode_utf8(render_versions(h.supported_versions)).len() <= u64::MAX
            &&& vstd::utf8::encode_utf8(render_caps(h.capabilities)).len() <= u64::MAX
            &&& match h.engine_id {
                Some(s) => vstd::utf8::encode_utf8(s).len() <= u64::MAX,
                None => true,
            }
        },
        FrameV::AgentHello(h) => vstd::utf8::encode_utf8(render_caps(h.capabilities)).len()
            <= u64::MAX,
        FrameV::HaproxyDisconnect(d) => vstd::utf8::encode_utf8(d.message).len() <= u64::MAX,
        FrameV::AgentDisconnect(d) => vstd::utf8::encode_utf8(d.message).len() <= u64::MAX,
        FrameV::HaproxyNotify(n) => n.stream_id != 0 && n.frame_id != 0 && msgs_valid(n.messages),
        FrameV::AgentAck(a) => a.stream_id != 0 && a.frame_id != 0 && actions_valid(a.actions),
    }
}

} // verus!
