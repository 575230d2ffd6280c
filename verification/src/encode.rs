//! Executable frame serializers, each proved to append exactly the wire form
//! its specification defines.

use vstd::prelude::*;
use crate::data::{self, Typed, TypedV};
use crate::frame::{
    AgentHello, Disconnect, Frame, HaproxyHello, Message, MessageV, Metadata,
    agent_hello_kvs, disconnect_kvs, flags_bits, frame_enc, haproxy_hello_kvs, meta_enc,
    msg_enc, msgs_enc, msgs_view,
};
use crate::varint;
use crate::wire;

verus! {

/// Concatenating entry lists concatenates their encodings.
pub proof fn lemma_kvs_enc_concat(s1: Seq<(Seq<char>, TypedV)>, s2: Seq<(Seq<char>, TypedV)>)
    ensures
        data::kvs_enc(s1 + s2) == data::kvs_enc(s1) + data::kvs_enc(s2),
    decreases s1.len(),
{
    if s1.len() == 0 {
        assert(s1 + s2 =~= s2);
        assert(data::kvs_enc(s1) =~= Seq::<u8>::empty());
        assert(data::kvs_enc(s1) + data::kvs_enc(s2) =~= data::kvs_enc(s2));
    } else {
        lemma_kvs_enc_concat(s1.skip(1), s2);
        assert((s1 + s2)[0] == s1[0]);
        assert((s1 + s2).skip(1) =~= s1.skip(1) + s2);
        assert(data::kv_enc(s1[0].0, s1[0].1) + (data::kvs_enc(s1.skip(1)) + data::kvs_enc(s2))
            =~= (data::kv_enc(s1[0].0, s1[0].1) + data::kvs_enc(s1.skip(1))) + data::kvs_enc(s2));
    }
}

proof fn lemma_kvs_enc_single(p: (Seq<char>, TypedV))
    ensures
        data::kvs_enc(seq![p]) == data::kv_enc(p.0, p.1),
{
    assert(seq![p].skip(1) =~= Seq::<(Seq<char>, TypedV)>::empty());
    assert(data::kvs_enc(Seq::<(Seq<char>, TypedV)>::empty()) =~= Seq::<u8>::empty());
    assert(data::kvs_enc(seq![p]) =~= data::kv_enc(p.0, p.1));
}

proof fn lemma_msgs_enc_snoc(msgs: Seq<MessageV>, m: MessageV)
    ensures
        msgs_enc(msgs.push(m)) == msgs_enc(msgs) + msg_enc(m),
    decreases msgs.len(),
{
    if msgs.len() == 0 {
        assert(msgs.push(m)[0] == m);
        assert(msgs.push(m).skip(1) =~= Seq::<MessageV>::empty());
        assert(msgs_enc(Seq::<MessageV>::empty()) =~= Seq::<u8>::empty());
        assert(msgs_enc(msgs.push(m)) =~= msg_enc(m));
        assert(msgs_enc(msgs) + msg_enc(m) =~= msg_enc(m));
    } else {
        lemma_msgs_enc_snoc(msgs.skip(1), m);
        assert(msgs.push(m).skip(1) =~= msgs.skip(1).push(m));
        assert(msgs.push(m)[0] == msgs[0]);
        assert(msg_enc(msgs[0]) + (msgs_enc(msgs.skip(1)) + msg_enc(m)) =~= (msg_enc(msgs[0])
            + msgs_enc(msgs.skip(1))) + msg_enc(m));
    }
}

/// Appends the metadata's wire form.
pub fn put_metadata(out: &mut Vec<u8>, md: &Metadata)
    ensures
        final(out)@ == old(out)@ + meta_enc(*md),
{
    let bits: u32 = (if md.flags.fin {
        1
    } else {
        0
    }) + (if md.flags.abort {
        2
    } else {
        0
    });
    assert(bits == flags_bits(md.flags));
    wire::put_u32_be(out, bits);
    varint::put(out, md.stream_id);
    varint::put(out, md.frame_id);
    assert(final(out)@ =~= old(out)@ + meta_enc(*md));
}

/// Appends one message's wire form.
pub fn put_message(out: &mut Vec<u8>, m: &Message)
    ensures
        final(out)@ == old(out)@ + msg_enc(m@),
{
    wire::put_str(out, m.name.as_str());
    out.push(m.args.len() as u8);
    let mut i: usize = 0;
    let ghost mid = out@;
    while i < m.args.len()
        invariant
            i <= m.args.len(),
            out@ == mid + data::kvs_enc(data::kvs_view(m.args@.take(i as int))),
        decreases m.args.len() - i,
    {
        data::put_kv(out, m.args[i].0.as_str(), &m.args[i].1);
        proof {
            let prev = data::kvs_view(m.args@.take(i as int));
            let p = (m.args@[i as int].0@, m.args@[i as int].1@);
            data::lemma_kvs_enc_snoc(prev, p.0, p.1);
            assert(data::kvs_view(m.args@.take(i + 1)) =~= prev.push(p));
            assert(mid + data::kvs_enc(prev) + data::kv_enc(p.0, p.1) =~= mid + (data::kvs_enc(
                prev,
            ) + data::kv_enc(p.0, p.1)));
        }
        i = i + 1;
    }
    proof {
        assert(m.args@.take(m.args@.len() as int) =~= m.args@);
        assert(final(out)@ =~= old(out)@ + msg_enc(m@));
    }
}

/// Appends a whole message list.
pub fn put_messages(out: &mut Vec<u8>, msgs: &Vec<Message>)
    ensures
        final(out)@ == old(out)@ + msgs_enc(msgs_view(msgs@)),
{
    let mut i: usize = 0;
    while i < msgs.len()
        invariant
            i <= msgs.len(),
            out@ == old(out)@ + msgs_enc(msgs_view(msgs@.take(i as int))),
        decreases msgs.len() - i,
    {
        put_message(out, &msgs[i]);
        proof {
            lemma_msgs_enc_snoc(msgs_view(msgs@.take(i as int)), msgs@[i as int]@);
            assert(msgs_view(msgs@.take(i + 1)) =~= msgs_view(msgs@.take(i as int)).push(
                msgs@[i as int]@,
            ));
            assert(old(out)@ + msgs_enc(msgs_view(msgs@.take(i as int))) + msg_enc(
                msgs@[i as int]@,
            ) =~= old(out)@ + (msgs_enc(msgs_view(msgs@.take(i as int))) + msg_enc(
                msgs@[i as int]@,
            )));
        }
        i = i + 1;
    }
    assert(msgs@.take(msgs@.len() as int) =~= msgs@);
}

/// Appends the key-value payload of an inbound hello.
pub fn put_haproxy_hello(out: &mut Vec<u8>, h: &HaproxyHello)
    ensures
        final(out)@ == old(out)@ + data::kvs_enc(haproxy_hello_kvs(h@)),
{
    let vs = crate::version::render_versions_string(&h.supported_versions);
    let cs = crate::caps::render_caps_string(&h.capabilities);
    data::put_kv(out, "supported-versions", &Typed::String(vs));
    data::put_kv(out, "max-frame-size", &Typed::Uint32(h.max_frame_size));
    data::put_kv(out, "capabilities", &Typed::String(cs));
    if let Some(x) = h.healthcheck {
        data::put_kv(out, "healthcheck", &Typed::Boolean(x));
    }
    match &h.engine_id {
        Some(id) => {
            let idc = id.clone();
            data::put_kv(out, "engine-id", &Typed::String(idc));
        },
        None => {},
    }
    proof {
        let hv = h@;
        let sv = ("supported-versions"@, TypedV::Str(crate::version::render_versions(
            hv.supported_versions,
        )));
        let mf = ("max-frame-size"@, TypedV::Uint32(hv.max_frame_size));
        let cp = ("capabilities"@, TypedV::Str(crate::caps::render_caps(hv.capabilities)));
        let s1 = seq![sv];
        let s2 = seq![sv, mf];
        let s3 = seq![sv, mf, cp];
        lemma_kvs_enc_single(sv);
        lemma_kvs_enc_concat(s1, seq![mf]);
        lemma_kvs_enc_single(mf);
        assert(s1 + seq![mf] =~= s2);
        lemma_kvs_enc_concat(s2, seq![cp]);
        lemma_kvs_enc_single(cp);
        assert(s2 + seq![cp] =~= s3);
        let hc = (match hv.healthcheck {
            Some(x) => seq![("healthcheck"@, TypedV::Boolean(x))],
            None => Seq::<(Seq<char>, TypedV)>::empty(),
        });
        let ei = (match hv.engine_id {
            Some(s) => seq![("engine-id"@, TypedV::Str(s))],
            None => Seq::<(Seq<char>, TypedV)>::empty(),
        });
        lemma_kvs_enc_concat(s3, hc);
        lemma_kvs_enc_concat(s3 + hc, ei);
        if hv.healthcheck is Some {
            lemma_kvs_enc_single(("healthcheck"@, TypedV::Boolean(hv.healthcheck.unwrap())));
        } else {
            assert(data::kvs_enc(hc) =~= Seq::<u8>::empty());
        }
        if hv.engine_id is Some {
            lemma_kvs_enc_single(("engine-id"@, TypedV::Str(hv.engine_id.unwrap())));
        } else {
            assert(data::kvs_enc(ei) =~= Seq::<u8>::empty());
        }
        assert(haproxy_hello_kvs(hv) == s3 + hc + ei);
        assert(final(out)@ =~= old(out)@ + data::kvs_enc(haproxy_hello_kvs(hv)));
    }
}

/// Appends the key-value payload of an agent hello.
pub fn put_agent_hello(out: &mut Vec<u8>, h: &AgentHello)
    ensures
        final(out)@ == old(out)@ + data::kvs_enc(agent_hello_kvs(h@)),
{
    let mut vs = String::new();
    crate::version::render_version_into(&mut vs, &h.version);
    let cs = crate::caps::render_caps_string(&h.capabilities);
    data::put_kv(out, "version", &Typed::String(vs));
    data::put_kv(out, "max-frame-size", &Typed::Uint32(h.max_frame_size));
    data::put_kv(out, "capabilities", &Typed::String(cs));
    proof {
        let hv = h@;
        let ve = ("version"@, TypedV::Str(crate::version::render_version(hv.version)));
        let mf = ("max-frame-size"@, TypedV::Uint32(hv.max_frame_size));
        let cp = ("capabilities"@, TypedV::Str(crate::caps::render_caps(hv.capabilities)));
        lemma_kvs_enc_single(ve);
        lemma_kvs_enc_concat(seq![ve], seq![mf]);
        lemma_kvs_enc_single(mf);
        assert(seq![ve] + seq![mf] =~= seq![ve, mf]);
        lemma_kvs_enc_concat(seq![ve, mf], seq![cp]);
        lemma_kvs_enc_single(cp);
        assert(seq![ve, mf] + seq![cp] =~= seq![ve, mf, cp]);
        assert(agent_hello_kvs(hv) == seq![ve, mf, cp]);
        assert(final(out)@ =~= old(out)@ + data::kvs_enc(agent_hello_kvs(hv)));
    }
}

/// Appends the key-value payload of a disconnect.
pub fn put_disconnect(out: &mut Vec<u8>, d: &Disconnect)
    ensures
        final(out)@ == old(out)@ + data::kvs_enc(disconnect_kvs(d@)),
{
    let msg = d.message.clone();
    data::put_kv(out, "status-code", &Typed::Uint32(d.status_code));
    data::put_kv(out, "message", &Typed::String(msg));
    proof {
        let dv = d@;
        let sc = ("status-code"@, TypedV::Uint32(dv.status_code));
        let me = ("message"@, TypedV::Str(dv.message));
        lemma_kvs_enc_single(sc);
        lemma_kvs_enc_concat(seq![sc], seq![me]);
        lemma_kvs_enc_single(me);
        assert(seq![sc] + seq![me] =~= seq![sc, me]);
        assert(disconnect_kvs(dv) == seq![sc, me]);
        assert(final(out)@ =~= old(out)@ + data::kvs_enc(disconnect_kvs(dv)));
    }
}

/// Appends the whole wire form of a frame: type byte, metadata, payload.
pub fn put_frame(out: &mut Vec<u8>, f: &Frame)
    ensures
        final(out)@ == old(out)@ + frame_enc(f@),
{
    match f {
        Frame::Unset => {
            out.push(0);
            put_metadata(out, &Metadata::default());
        },
        Frame::HaproxyHello(h) => {
            out.push(1);
            put_metadata(out, &Metadata::default());
            put_haproxy_hello(out, h);
        },
        Frame::HaproxyDisconnect(d) => {
            out.push(2);
            put_metadata(out, &Metadata::default());
            put_disconnect(out, d);
        },
        Frame::HaproxyNotify(n) => {
            out.push(3);
            let md = n.metadata();
            put_metadata(out, &md);
            put_messages(out, &n.messages);
        },
        Frame::AgentHello(h) => {
            out.push(101);
            put_metadata(out, &Metadata::default());
            put_agent_hello(out, h);
        },
        Frame::AgentDisconnect(d) => {
            out.push(102);
            put_metadata(out, &Metadata::default());
            put_disconnect(out, d);
        },
        Frame::AgentAck(a) => {
            out.push(103);
            let md = a.metadata();
            put_metadata(out, &md);
            crate::action::put_actions(out, &a.actions);
        },
    }
    assert(final(out)@ =~= old(out)@ + frame_enc(f@));
}

impl Frame {
    /// Number of bytes of the frame's whole wire form, length prefix
    /// excluded.
    pub fn size(&self) -> (r: usize)
        requires
            frame_enc(self@).len() <= usize::MAX,
        ensures
            r == frame_enc(self@).len(),
    {
        let mut v: Vec<u8> = Vec::new();
        put_frame(&mut v, self);
        v.len()
    }
}

impl HaproxyHello {
    /// Number of bytes of this hello's key-value payload.
    pub fn size(&self) -> (r: usize)
        requires
            data::kvs_enc(haproxy_hello_kvs(self@)).len() <= usize::MAX,
        ensures
            r == data::kvs_enc(haproxy_hello_kvs(self@)).len(),
    {
        let mut v: Vec<u8> = Vec::new();
        put_haproxy_hello(&mut v, self);
        v.len()
    }
}

impl AgentHello {
    /// Number of bytes of this hello's key-value payload.
    pub fn size(&self) -> (r: usize)
        requires
            data::kvs_enc(agent_hello_kvs(self@)).len() <= usize::MAX,
        ensures
            r == data::kvs_enc(agent_hello_kvs(self@)).len(),
    {
        let mut v: Vec<u8> = Vec::new();
        put_agent_hello(&mut v, self);
        v.len()
    }
}

impl Disconnect {
    /// Number of bytes of this disconnect's key-value payload.
    pub fn size(&self) -> (r: usize)
        requires
            data::kvs_enc(disconnect_kvs(self@)).len() <= usize::MAX,
        ensures
            r == data::kvs_enc(disconnect_kvs(self@)).len(),
    {
        let mut v: Vec<u8> = Vec::new();
        put_disconnect(&mut v, self);
        v.len()
    }
}

} // verus!
