//! Executable frame parsers, each proved to return exactly what its
//! specification decodes from the bytes.

use vstd::prelude::*;
use crate::data::{self, Typed};
use crate::frame::{
    Ack, AgentHello, Disconnect, Flags, Frame, HaproxyHello, Message, Metadata, Notify,
    agent_hello_from_kvs, disconnect_from_kvs, flags_of_bits, frame_dec, hello_from_kvs,
    lookup_bool, lookup_string, lookup_uint, meta_dec, msg_dec, msgs_dec, msgs_view,
};
use crate::status::Status;
use crate::varint;
use crate::wire;

verus! {

/// Reads the metadata at `pos`; returns it and the position just after it.
pub fn get_metadata(buf: &Vec<u8>, pos: usize) -> (r: Option<(Metadata, usize)>)
    requires
        pos <= buf.len(),
    ensures
        match r {
            Some(mk) => {
                &&& meta_dec(buf@.skip(pos as int)) matches Some(s) && s.0 == mk.0 && s.1 + pos
                    == mk.1
                &&& pos < mk.1 <= buf.len()
            },
            None => meta_dec(buf@.skip(pos as int)) is None,
        },
{
    let ghost b = buf@.skip(pos as int);
    match wire::get_u32_be(buf, pos) {
        None => None,
        Some(x) => {
            assert(b.skip(4) =~= buf@.skip(pos + 4));
            match varint::get(buf, pos + 4) {
                None => None,
                Some((sid, k1)) => {
                    assert(b.skip(4 + k1 as int) =~= buf@.skip(pos + 4 + k1 as int));
                    match varint::get(buf, pos + 4 + k1) {
                        None => None,
                        Some((fid, k2)) => {
                            let flags = Flags { fin: x % 2 == 1, abort: (x / 2) % 2 == 1 };
                            assert(flags == flags_of_bits(x));
                            Some((Metadata { flags, stream_id: sid, frame_id: fid }, pos + 4 + k1
                                + k2))
                        },
                    }
                },
            }
        },
    }
}

/// Reads the message at `pos`; returns it and the position just after it.
pub fn get_message(buf: &Vec<u8>, pos: usize) -> (r: Option<(Message, usize)>)
    requires
        pos <= buf.len(),
    ensures
        match r {
            Some(mk) => {
                &&& msg_dec(buf@.skip(pos as int)) matches Some(s) && s.0 == mk.0@ && s.1 + pos
                    == mk.1
                &&& pos < mk.1 <= buf.len()
            },
            None => msg_dec(buf@.skip(pos as int)) is None,
        },
{
    let ghost b = buf@.skip(pos as int);
    match wire::get_str(buf, pos) {
        None => None,
        Some((name, mid)) => {
            assert(b.skip(mid - pos) =~= buf@.skip(mid as int));
            if mid >= buf.len() {
                return None;
            }
            let nargs = buf[mid];
            assert(buf@.skip(mid as int)[0] == nargs);
            assert(buf@.skip(mid as int).skip(1) =~= buf@.skip(mid + 1));
            match data::get_kvn(buf, mid + 1, nargs) {
                None => None,
                Some((args, end)) => Some((Message { name, args }, end)),
            }
        },
    }
}

/// Reads messages from `pos` to the end of the buffer.
pub fn get_messages(buf: &Vec<u8>, pos: usize) -> (r: Option<Vec<Message>>)
    requires
        pos <= buf.len(),
    ensures
        match r {
            Some(msgs) => msgs_dec(buf@.skip(pos as int)) == Some(msgs_view(msgs@)),
            None => msgs_dec(buf@.skip(pos as int)) is None,
        },
{
    let mut out: Vec<Message> = Vec::new();
    let mut at = pos;
    proof {
        if msgs_dec(buf@.skip(pos as int)) is Some {
            assert(msgs_view(out@) + msgs_dec(buf@.skip(pos as int)).unwrap() =~= msgs_dec(
                buf@.skip(pos as int),
            ).unwrap());
        }
    }
    while at < buf.len()
        invariant
            pos <= at <= buf.len(),
            msgs_dec(buf@.skip(pos as int)) == match msgs_dec(buf@.skip(at as int)) {
                Some(rest) => Some(msgs_view(out@) + rest),
                None => None::<Seq<crate::frame::MessageV>>,
            },
        decreases buf.len() - at,
    {
        let ghost remain = buf@.skip(at as int);
        match get_message(buf, at) {
            None => {
                return None;
            },
            Some((m, end)) => {
                proof {
                    assert(remain.skip(end - at) =~= buf@.skip(end as int));
                    let ghost mv = m@;
                    if msgs_dec(buf@.skip(end as int)) is Some {
                        let rest = msgs_dec(buf@.skip(end as int)).unwrap();
                        assert(msgs_dec(remain) == Some(seq![mv] + rest));
                        assert(msgs_view(out@) + (seq![mv] + rest) =~= msgs_view(out@.push(m))
                            + rest);
                    } else {
                        assert(msgs_dec(remain) is None);
                    }
                }
                out.push(m);
                at = end;
            },
        }
    }
    proof {
        assert(buf@.skip(buf@.len() as int) =~= Seq::<u8>::empty());
        assert(msgs_view(out@) + Seq::<crate::frame::MessageV>::empty() =~= msgs_view(out@));
    }
    Some(out)
}

/// The string entry under `key`, if the last entry so named is a string.
fn find_string(kvs: &Vec<(String, Typed)>, key: &str) -> (r: Option<String>)
    ensures
        match r {
            Some(s) => lookup_string(data::kvs_view(kvs@), key@) == Some(s@),
            None => lookup_string(data::kvs_view(kvs@), key@) is None,
        },
{
    match data::kv_find(kvs, key) {
        None => None,
        Some(i) => match &kvs[i].1 {
            Typed::String(s) => Some(s.clone()),
            _ => None,
        },
    }
}

/// The unsigned entry under `key`, if the last entry so named is an integer
/// of any width.
fn find_uint(kvs: &Vec<(String, Typed)>, key: &str) -> (r: Option<u64>)
    ensures
        r == lookup_uint(data::kvs_view(kvs@), key@),
{
    match data::kv_find(kvs, key) {
        None => None,
        Some(i) => match &kvs[i].1 {
            Typed::Int32(n) => Some(*n as u64),
            Typed::Uint32(n) => Some(*n as u64),
            Typed::Int64(n) => Some(*n as u64),
            Typed::Uint64(n) => Some(*n),
            _ => None,
        },
    }
}

/// The boolean entry under `key`, if the last entry so named is a boolean.
fn find_bool(kvs: &Vec<(String, Typed)>, key: &str) -> (r: Option<bool>)
    ensures
        r == lookup_bool(data::kvs_view(kvs@), key@),
{
    match data::kv_find(kvs, key) {
        None => None,
        Some(i) => match &kvs[i].1 {
            Typed::Boolean(b) => Some(*b),
            _ => None,
        },
    }
}

/// Interprets a decoded key-value list as an inbound hello.
pub fn haproxy_hello_of_kvs(kvs: &Vec<(String, Typed)>) -> (r: Result<HaproxyHello, Status>)
    ensures
        match r {
            Ok(h) => hello_from_kvs(data::kvs_view(kvs@)) == Ok::<_, Status>(h@),
            Err(e) => hello_from_kvs(data::kvs_view(kvs@)) == Err::<crate::frame::HaproxyHelloV,
                _,
            >(e),
        },
{
    let vstr = match find_string(kvs, "supported-versions") {
        None => {
            return Err(Status::NoVersion);
        },
        Some(s) => s,
    };
    let versions = match crate::version::parse_versions_str(vstr.as_str()) {
        None => {
            return Err(Status::Invalid);
        },
        Some(vs) => vs,
    };
    let mfs = match find_uint(kvs, "max-frame-size") {
        None => {
            return Err(Status::NoFrameSize);
        },
        Some(n) => n,
    };
    let cstr = match find_string(kvs, "capabilities") {
        None => {
            return Err(Status::NoCapabilities);
        },
        Some(s) => s,
    };
    let capabilities = match crate::caps::parse_caps_str(cstr.as_str()) {
        None => {
            return Err(Status::Invalid);
        },
        Some(cs) => cs,
    };
    let healthcheck = find_bool(kvs, "healthcheck");
    let engine_id = find_string(kvs, "engine-id");
    Ok(
        HaproxyHello {
            supported_versions: versions,
            max_frame_size: mfs as u32,
            capabilities,
            healthcheck,
            engine_id,
        },
    )
}

/// Interprets a decoded key-value list as an agent hello.
pub fn agent_hello_of_kvs(kvs: &Vec<(String, Typed)>) -> (r: Result<AgentHello, Status>)
    ensures
        match r {
            Ok(h) => agent_hello_from_kvs(data::kvs_view(kvs@)) == Ok::<_, Status>(h@),
            Err(e) => agent_hello_from_kvs(data::kvs_view(kvs@)) == Err::<
                crate::frame::AgentHelloV,
                _,
            >(e),
        },
{
    let vstr = match find_string(kvs, "version") {
        None => {
            return Err(Status::NoVersion);
        },
        Some(s) => s,
    };
    let cv = crate::chars::str_chars(vstr.as_str());
    assert(cv@.subrange(0, cv@.len() as int) =~= vstr@);
    let version = match crate::version::parse_version_range(&cv, 0, cv.len()) {
        None => {
            return Err(Status::BadVersion);
        },
        Some(v) => v,
    };
    let mfs = match find_uint(kvs, "max-frame-size") {
        None => {
            return Err(Status::NoFrameSize);
        },
        Some(n) => n,
    };
    let cstr = match find_string(kvs, "capabilities") {
        None => {
            return Err(Status::NoCapabilities);
        },
        Some(s) => s,
    };
    let capabilities = match crate::caps::parse_caps_str(cstr.as_str()) {
        None => {
            return Err(Status::Invalid);
        },
        Some(cs) => cs,
    };
    Ok(AgentHello { version, max_frame_size: mfs as u32, capabilities })
}

/// Interprets a decoded key-value list as a disconnect; missing entries
/// default to code zero and an empty message.
pub fn disconnect_of_kvs(kvs: &Vec<(String, Typed)>) -> (r: Disconnect)
    ensures
        r@ == disconnect_from_kvs(data::kvs_view(kvs@)),
{
    let status_code = match find_uint(kvs, "status-code") {
        Some(n) => n as u32,
        None => 0,
    };
    let message = match find_string(kvs, "message") {
        Some(s) => s,
        None => String::new(),
    };
    Disconnect { status_code, message }
}

/// Parses a whole frame from `buf`, which must hold exactly one frame.
/// Rejections mirror the wire rules: hello and disconnect frames must carry
/// zero ids, notify and ack frames non-zero ones; unknown types, the `Unset`
/// sentinel and malformed payloads are invalid.
pub fn parse_frame(buf: &Vec<u8>) -> (r: Result<Frame, Status>)
    ensures
        match r {
            Ok(f) => frame_dec(buf@) == Ok::<_, Status>(f@),
            Err(e) => frame_dec(buf@) == Err::<crate::frame::FrameV, _>(e),
        },
{
    if buf.len() == 0 {
        return Err(Status::Invalid);
    }
    let t = buf[0];
    assert(buf@.skip(0).skip(1) =~= buf@.skip(1));
    assert(buf@.skip(0) =~= buf@);
    let (md, pos) = match get_metadata(buf, 1) {
        None => {
            return Err(Status::Invalid);
        },
        Some(mk) => mk,
    };
    assert(buf@.skip(1).skip(pos - 1) =~= buf@.skip(pos as int));
    if t == 1 || t == 101 {
        if md.stream_id == 0 && md.frame_id == 0 {
            match data::get_kvs(buf, pos) {
                None => Err(Status::Invalid),
                Some(kvs) => {
                    if t == 1 {
                        match haproxy_hello_of_kvs(&kvs) {
                            Ok(h) => Ok(Frame::HaproxyHello(h)),
                            Err(e) => Err(e),
                        }
                    } else {
                        match agent_hello_of_kvs(&kvs) {
                            Ok(h) => Ok(Frame::AgentHello(h)),
                            Err(e) => Err(e),
                        }
                    }
                },
            }
        } else {
            Err(Status::Invalid)
        }
    } else if t == 2 || t == 102 {
        if md.stream_id == 0 && md.frame_id == 0 {
            match data::get_kvs(buf, pos) {
                None => Err(Status::Invalid),
                Some(kvs) => {
                    let d = disconnect_of_kvs(&kvs);
                    if t == 2 {
                        Ok(Frame::HaproxyDisconnect(d))
                    } else {
                        Ok(Frame::AgentDisconnect(d))
                    }
                },
            }
        } else {
            Err(Status::Invalid)
        }
    } else if t == 3 {
        if md.stream_id != 0 && md.frame_id != 0 {
            match get_messages(buf, pos) {
                None => Err(Status::Invalid),
                Some(messages) => Ok(
                    Frame::HaproxyNotify(
                        Notify {
                            fragmented: !md.flags.fin,
                            stream_id: md.stream_id,
                            frame_id: md.frame_id,
                            messages,
                        },
                    ),
                ),
            }
        } else {
            Err(Status::Invalid)
        }
    } else if t == 103 {
        if md.stream_id != 0 && md.frame_id != 0 {
            match crate::action::get_actions(buf, pos) {
                None => Err(Status::Invalid),
                Some(actions) => Ok(
                    Frame::AgentAck(
                        Ack {
                            fragmented: !md.flags.fin,
                            aborted: md.flags.abort,
                            stream_id: md.stream_id,
                            frame_id: md.frame_id,
                            actions,
                        },
                    ),
                ),
            }
        } else {
            Err(Status::Invalid)
        }
    } else {
        Err(Status::Invalid)
    }
}

} // verus!
