//! Whole-frame laws: encoding then decoding any valid frame returns that
//! frame, and decoders enforce the metadata constraints of each frame kind.

use vstd::prelude::*;
use crate::action;
use crate::caps;
use crate::data::{self, TypedV};
use crate::frame::{
    AgentHelloV, DisconnectV, FrameV, HaproxyHelloV, agent_hello_from_kvs, agent_hello_kvs,
    disconnect_from_kvs, disconnect_kvs, frame_dec, frame_enc, frame_valid, haproxy_hello_kvs,
    hello_from_kvs, lemma_meta_round_trip, lemma_msgs_round_trip, lookup_bool, lookup_string,
    lookup_uint, meta_dec, meta_default, ack_meta, notify_meta,
};
use crate::status::Status;
use crate::version;

verus! {

/// Lengths of the recognized keys, and that each is plain ASCII, so its
/// UTF-8 bytes are one per character.
proof fn lemma_key_facts()
    ensures
        "supported-versions"@.len() == 18,
        "max-frame-size"@.len() == 14,
        "capabilities"@.len() == 12,
        "healthcheck"@.len() == 11,
        "engine-id"@.len() == 9,
        "version"@.len() == 7,
        "status-code"@.len() == 11,
        "message"@.len() == 7,
        vstd::utf8::encode_utf8("supported-versions"@).len() == 18,
        vstd::utf8::encode_utf8("max-frame-size"@).len() == 14,
        vstd::utf8::encode_utf8("capabilities"@).len() == 12,
        vstd::utf8::encode_utf8("healthcheck"@).len() == 11,
        vstd::utf8::encode_utf8("engine-id"@).len() == 9,
        vstd::utf8::encode_utf8("version"@).len() == 7,
        vstd::utf8::encode_utf8("status-code"@).len() == 11,
        vstd::utf8::encode_utf8("message"@).len() == 7,
{
    reveal_strlit("supported-versions");
    reveal_strlit("max-frame-size");
    reveal_strlit("capabilities");
    reveal_strlit("healthcheck");
    reveal_strlit("engine-id");
    reveal_strlit("version");
    reveal_strlit("status-code");
    reveal_strlit("message");
    assert(vstd::utf8::is_ascii_chars("supported-versions"@));
    assert(vstd::utf8::is_ascii_chars("max-frame-size"@));
    assert(vstd::utf8::is_ascii_chars("capabilities"@));
    assert(vstd::utf8::is_ascii_chars("healthcheck"@));
    assert(vstd::utf8::is_ascii_chars("engine-id"@));
    assert(vstd::utf8::is_ascii_chars("version"@));
    assert(vstd::utf8::is_ascii_chars("status-code"@));
    assert(vstd::utf8::is_ascii_chars("message"@));
    vstd::utf8::is_ascii_chars_encode_utf8("supported-versions"@);
    vstd::utf8::is_ascii_chars_encode_utf8("max-frame-size"@);
    vstd::utf8::is_ascii_chars_encode_utf8("capabilities"@);
    vstd::utf8::is_ascii_chars_encode_utf8("healthcheck"@);
    vstd::utf8::is_ascii_chars_encode_utf8("engine-id"@);
    vstd::utf8::is_ascii_chars_encode_utf8("version"@);
    vstd::utf8::is_ascii_chars_encode_utf8("status-code"@);
    vstd::utf8::is_ascii_chars_encode_utf8("message"@);
}

/// Every version renders to ASCII characters, so its UTF-8 form is short.
proof fn lemma_render_version_ascii(v: crate::version::Version)
    ensures
        vstd::utf8::encode_utf8(version::render_version(v)).len() == version::render_version(
            v,
        ).len(),
{
    let s = version::render_version(v);
    crate::chars::lemma_dec_chars_ascii(v.major as nat);
    crate::chars::lemma_dec_chars_ascii(v.minor as nat);
    let ma = crate::chars::dec_chars(v.major as nat);
    let mi = crate::chars::dec_chars(v.minor as nat);
    assert forall|j| 0 <= j < s.len() implies '\0' <= #[trigger] s[j] <= '\u{7f}' by {
        if j < ma.len() {
            assert(s[j] == ma[j]);
        } else if j == ma.len() {
            assert(s[j] == '.');
        } else {
            assert(s[j] == mi[j - ma.len() - 1]);
        }
    }
    assert(vstd::utf8::is_ascii_chars(s));
    vstd::utf8::is_ascii_chars_encode_utf8(s);
}

proof fn lemma_hello_lookups(h: HaproxyHelloV)
    ensures
        lookup_string(haproxy_hello_kvs(h), "supported-versions"@) == Some(
            version::render_versions(h.supported_versions),
        ),
        lookup_uint(haproxy_hello_kvs(h), "max-frame-size"@) == Some(h.max_frame_size as u64),
        lookup_string(haproxy_hello_kvs(h), "capabilities"@) == Some(
            caps::render_caps(h.capabilities),
        ),
        lookup_bool(haproxy_hello_kvs(h), "healthcheck"@) == h.healthcheck,
        lookup_string(haproxy_hello_kvs(h), "engine-id"@) == h.engine_id,
{
    lemma_key_facts();
    let sv = ("supported-versions"@, TypedV::Str(version::render_versions(h.supported_versions)));
    let mf = ("max-frame-size"@, TypedV::Uint32(h.max_frame_size));
    let cp = ("capabilities"@, TypedV::Str(caps::render_caps(h.capabilities)));
    let e0 = Seq::<(Seq<char>, TypedV)>::empty();
    let s3 = e0.push(sv).push(mf).push(cp);
    data::lemma_kv_lookup_snoc_all(e0, sv.0, sv.1);
    data::lemma_kv_lookup_snoc_all(e0.push(sv), mf.0, mf.1);
    data::lemma_kv_lookup_snoc_all(e0.push(sv).push(mf), cp.0, cp.1);
    let kvs = haproxy_hello_kvs(h);
    if h.healthcheck is Some {
        let hcp = ("healthcheck"@, TypedV::Boolean(h.healthcheck.unwrap()));
        data::lemma_kv_lookup_snoc_all(s3, hcp.0, hcp.1);
        if h.engine_id is Some {
            let eip = ("engine-id"@, TypedV::Str(h.engine_id.unwrap()));
            data::lemma_kv_lookup_snoc_all(s3.push(hcp), eip.0, eip.1);
            assert(kvs =~= s3.push(hcp).push(eip));
        } else {
            assert(kvs =~= s3.push(hcp));
        }
    } else {
        if h.engine_id is Some {
            let eip = ("engine-id"@, TypedV::Str(h.engine_id.unwrap()));
            data::lemma_kv_lookup_snoc_all(s3, eip.0, eip.1);
            assert(kvs =~= s3.push(eip));
        } else {
            assert(kvs =~= s3);
        }
    }
}

proof fn lemma_agent_hello_lookups(h: AgentHelloV)
    ensures
        lookup_string(agent_hello_kvs(h), "version"@) == Some(version::render_version(h.version)),
        lookup_uint(agent_hello_kvs(h), "max-frame-size"@) == Some(h.max_frame_size as u64),
        lookup_string(agent_hello_kvs(h), "capabilities"@) == Some(
            caps::render_caps(h.capabilities),
        ),
{
    lemma_key_facts();
    let ve = ("version"@, TypedV::Str(version::render_version(h.version)));
    let mf = ("max-frame-size"@, TypedV::Uint32(h.max_frame_size));
    let cp = ("capabilities"@, TypedV::Str(caps::render_caps(h.capabilities)));
    let e0 = Seq::<(Seq<char>, TypedV)>::empty();
    data::lemma_kv_lookup_snoc_all(e0, ve.0, ve.1);
    data::lemma_kv_lookup_snoc_all(e0.push(ve), mf.0, mf.1);
    data::lemma_kv_lookup_snoc_all(e0.push(ve).push(mf), cp.0, cp.1);
    assert(agent_hello_kvs(h) =~= e0.push(ve).push(mf).push(cp));
}

proof fn lemma_disconnect_lookups(d: DisconnectV)
    ensures
        lookup_uint(disconnect_kvs(d), "status-code"@) == Some(d.status_code as u64),
        lookup_string(disconnect_kvs(d), "message"@) == Some(d.message),
{
    lemma_key_facts();
    let sc = ("status-code"@, TypedV::Uint32(d.status_code));
    let me = ("message"@, TypedV::Str(d.message));
    let e0 = Seq::<(Seq<char>, TypedV)>::empty();
    data::lemma_kv_lookup_snoc_all(e0, sc.0, sc.1);
    data::lemma_kv_lookup_snoc_all(e0.push(sc), me.0, me.1);
    assert(disconnect_kvs(d) =~= e0.push(sc).push(me));
}

/// Round trip: decoding the encoding of any valid frame yields that frame.
/// Validity excludes only the `Unset` sentinel, frames whose ids break the
/// wire rules, and payloads whose counts cannot fit their wire fields.
pub proof fn lemma_frame_round_trip(f: FrameV)
    requires
        frame_valid(f),
    ensures
        frame_dec(frame_enc(f)) == Ok::<FrameV, Status>(f),
{
    match f {
        FrameV::Unset => {},
        FrameV::HaproxyHello(h) => {
            lemma_haproxy_hello_round_trip(f, h);
        },
        FrameV::AgentHello(h) => {
            lemma_agent_hello_round_trip(f, h);
        },
        FrameV::HaproxyDisconnect(d) => {
            lemma_disconnect_round_trip_case(f, d, 2);
        },
        FrameV::AgentDisconnect(d) => {
            lemma_disconnect_round_trip_case(f, d, 102);
        },
        FrameV::HaproxyNotify(n) => {
            let b = frame_enc(f);
            let payload = crate::frame::msgs_enc(n.messages);
            lemma_meta_round_trip(notify_meta(n), payload);
            assert(b[0] == 3u8);
            assert(b.skip(1) =~= crate::frame::meta_enc(notify_meta(n)) + payload);
            assert(b.skip(1 + crate::frame::meta_enc(notify_meta(n)).len() as int) =~= payload);
            lemma_msgs_round_trip(n.messages);
        },
        FrameV::AgentAck(a) => {
            let b = frame_enc(f);
            let payload = action::actions_enc(a.actions);
            lemma_meta_round_trip(ack_meta(a), payload);
            assert(b[0] == 103u8);
            assert(b.skip(1) =~= crate::frame::meta_enc(ack_meta(a)) + payload);
            assert(b.skip(1 + crate::frame::meta_enc(ack_meta(a)).len() as int) =~= payload);
            action::lemma_actions_round_trip(a.actions);
        },
    }
}

#[verifier::rlimit(60)]
proof fn lemma_haproxy_hello_round_trip(f: FrameV, h: HaproxyHelloV)
    requires
        frame_valid(f),
        f == FrameV::HaproxyHello(h),
    ensures
        frame_dec(frame_enc(f)) == Ok::<FrameV, Status>(f),
{
    let b = frame_enc(f);
    let payload = data::kvs_enc(haproxy_hello_kvs(h));
    lemma_meta_round_trip(meta_default(), payload);
    assert(b[0] == 1u8);
    assert(b.skip(1) =~= crate::frame::meta_enc(meta_default()) + payload);
    assert(b.skip(1 + crate::frame::meta_enc(meta_default()).len() as int) =~= payload);
    lemma_hello_kvs_valid(h);
    data::lemma_kvs_round_trip(haproxy_hello_kvs(h));
    lemma_hello_lookups(h);
    version::lemma_versions_round_trip(h.supported_versions);
    caps::lemma_caps_round_trip(h.capabilities);
    assert((h.max_frame_size as u64) as u32 == h.max_frame_size);
    assert(hello_from_kvs(haproxy_hello_kvs(h)) == Ok::<HaproxyHelloV, Status>(h));
}

#[verifier::rlimit(60)]
proof fn lemma_agent_hello_round_trip(f: FrameV, h: AgentHelloV)
    requires
        frame_valid(f),
        f == FrameV::AgentHello(h),
    ensures
        frame_dec(frame_enc(f)) == Ok::<FrameV, Status>(f),
{
    let b = frame_enc(f);
    let payload = data::kvs_enc(agent_hello_kvs(h));
    lemma_meta_round_trip(meta_default(), payload);
    assert(b[0] == 101u8);
    assert(b.skip(1) =~= crate::frame::meta_enc(meta_default()) + payload);
    assert(b.skip(1 + crate::frame::meta_enc(meta_default()).len() as int) =~= payload);
    assert(data::kvs_valid(agent_hello_kvs(h))) by {
        lemma_key_facts();
        lemma_render_version_ascii(h.version);
        crate::chars::lemma_dec_chars_ascii(h.version.major as nat);
        crate::chars::lemma_dec_chars_ascii(h.version.minor as nat);
        let kvs = agent_hello_kvs(h);
        assert(kvs[0] == ("version"@, TypedV::Str(version::render_version(h.version))));
        assert(kvs[1] == ("max-frame-size"@, TypedV::Uint32(h.max_frame_size)));
        assert(kvs[2] == ("capabilities"@, TypedV::Str(caps::render_caps(h.capabilities))));
        assert(data::kv_valid(kvs[0].0, kvs[0].1));
        assert(data::kv_valid(kvs[1].0, kvs[1].1));
        assert(data::kv_valid(kvs[2].0, kvs[2].1));
        assert forall|i: int|
            0 <= i < kvs.len() implies data::kv_valid(#[trigger] kvs[i].0, kvs[i].1) by {
            assert(i == 0 || i == 1 || i == 2);
        }
    }
    data::lemma_kvs_round_trip(agent_hello_kvs(h));
    lemma_agent_hello_lookups(h);
    version::lemma_version_round_trip(h.version);
    caps::lemma_caps_round_trip(h.capabilities);
    assert((h.max_frame_size as u64) as u32 == h.max_frame_size);
    assert(agent_hello_from_kvs(agent_hello_kvs(h)) == Ok::<AgentHelloV, Status>(h));
}

#[verifier::rlimit(60)]
proof fn lemma_hello_kvs_valid(h: HaproxyHelloV)
    requires
        frame_valid(FrameV::HaproxyHello(h)),
    ensures
        data::kvs_valid(haproxy_hello_kvs(h)),
{
    lemma_key_facts();
    let kvs = haproxy_hello_kvs(h);
    let s3 = seq![
        ("supported-versions"@, TypedV::Str(version::render_versions(h.supported_versions))),
        ("max-frame-size"@, TypedV::Uint32(h.max_frame_size)),
        ("capabilities"@, TypedV::Str(caps::render_caps(h.capabilities))),
    ];
    assert(data::kv_valid(s3[0].0, s3[0].1));
    assert(data::kv_valid(s3[1].0, s3[1].1));
    assert(data::kv_valid(s3[2].0, s3[2].1));
    assert forall|i: int| 0 <= i < kvs.len() implies data::kv_valid(
        #[trigger] kvs[i].0,
        kvs[i].1,
    ) by {
        if i < 3 {
            assert(kvs[i] == s3[i]);
        } else {
            if h.healthcheck is Some && i == 3 {
                assert(kvs[i] == ("healthcheck"@, TypedV::Boolean(h.healthcheck.unwrap())));
            } else {
                assert(kvs[i] == ("engine-id"@, TypedV::Str(h.engine_id.unwrap())));
            }
        }
    }
}

proof fn lemma_disconnect_round_trip_case(f: FrameV, d: DisconnectV, t: u8)
    requires
        frame_valid(f),
        t == 2 ==> f == FrameV::HaproxyDisconnect(d),
        t == 102 ==> f == FrameV::AgentDisconnect(d),
        t == 2 || t == 102,
    ensures
        frame_dec(frame_enc(f)) == Ok::<FrameV, Status>(f),
{
    let b = frame_enc(f);
    lemma_key_facts();
    let payload = data::kvs_enc(disconnect_kvs(d));
    lemma_meta_round_trip(meta_default(), payload);
    assert(b[0] == t);
    assert(b.skip(1) =~= crate::frame::meta_enc(meta_default()) + payload);
    assert(b.skip(1 + crate::frame::meta_enc(meta_default()).len() as int) =~= payload);
    assert(data::kvs_valid(disconnect_kvs(d))) by {
        let kvs = disconnect_kvs(d);
        assert forall|i: int|
            0 <= i < kvs.len() implies data::kv_valid(#[trigger] kvs[i].0, kvs[i].1) by {
            assert(kvs.len() == 2);
        }
    }
    data::lemma_kvs_round_trip(disconnect_kvs(d));
    lemma_disconnect_lookups(d);
    assert((d.status_code as u64) as u32 == d.status_code);
    assert(disconnect_from_kvs(disconnect_kvs(d)) == d);
}

/// Decoders enforce the metadata constraints: hello and disconnect frames
/// must carry zero stream and frame ids, notify and ack frames non-zero
/// ones; any violation is rejected as invalid.
pub proof fn lemma_frame_dec_checks_metadata(b: Seq<u8>)
    requires
        b.len() > 0,
        meta_dec(b.skip(1)) is Some,
    ensures
        ({
            let md = meta_dec(b.skip(1)).unwrap().0;
            &&& (b[0] == 1 || b[0] == 2 || b[0] == 101 || b[0] == 102) && (md.stream_id != 0
                || md.frame_id != 0) ==> frame_dec(b) == Err::<FrameV, Status>(Status::Invalid)
            &&& (b[0] == 3 || b[0] == 103) && (md.stream_id == 0 || md.frame_id == 0) ==> frame_dec(
                b,
            ) == Err::<FrameV, Status>(Status::Invalid)
        }),
{
}

} // verus!
