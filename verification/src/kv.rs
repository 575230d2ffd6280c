//! Builders for the key-value entries recognized in Hello and Disconnect
//! frames.

use vstd::prelude::*;
use crate::caps::{Capability, render_caps};
use crate::data::{KeyValue, Typed, TypedV};
use crate::version::{Version, render_version, render_versions};

verus! {

use vstd::string::StringExecFns;

/// The versions HAProxy supports, as a comma-separated list.
pub fn supported_versions(versions: &Vec<Version>) -> (r: KeyValue)
    ensures
        r@ == ("supported-versions"@, TypedV::Str(render_versions(versions@))),
{
    KeyValue {
        key: String::from_str("supported-versions"),
        value: Typed::String(crate::version::render_versions_string(versions)),
    }
}

/// The one version an agent hello settles on.
pub fn version(ver: &Version) -> (r: KeyValue)
    ensures
        r@ == ("version"@, TypedV::Str(render_version(*ver))),
{
    let mut s = String::new();
    crate::version::render_version_into(&mut s, ver);
    KeyValue { key: String::from_str("version"), value: Typed::String(s) }
}

/// The frame size limit either side announces.
pub fn max_frame_size(sz: u32) -> (r: KeyValue)
    ensures
        r@ == ("max-frame-size"@, TypedV::Uint32(sz)),
{
    KeyValue { key: String::from_str("max-frame-size"), value: Typed::Uint32(sz) }
}

/// The capabilities either side announces, as a comma-separated list.
pub fn capabilities(caps: &Vec<Capability>) -> (r: KeyValue)
    ensures
        r@ == ("capabilities"@, TypedV::Str(render_caps(caps@))),
{
    KeyValue {
        key: String::from_str("capabilities"),
        value: Typed::String(crate::caps::render_caps_string(caps)),
    }
}

/// Marks an inbound hello as belonging to a health check.
pub fn healthcheck(enable: bool) -> (r: KeyValue)
    ensures
        r@ == ("healthcheck"@, TypedV::Boolean(enable)),
{
    KeyValue { key: String::from_str("healthcheck"), value: Typed::Boolean(enable) }
}

/// The engine identifier of an inbound hello.
pub fn engine_id(id: &str) -> (r: KeyValue)
    ensures
        r@ == ("engine-id"@, TypedV::Str(id@)),
{
    KeyValue { key: String::from_str("engine-id"), value: Typed::String(String::from_str(id)) }
}

/// The error code of a disconnect.
pub fn status_code(code: u32) -> (r: KeyValue)
    ensures
        r@ == ("status-code"@, TypedV::Uint32(code)),
{
    KeyValue { key: String::from_str("status-code"), value: Typed::Uint32(code) }
}

/// The human-readable reason of a disconnect.
pub fn message(msg: &str) -> (r: KeyValue)
    ensures
        r@ == ("message"@, TypedV::Str(msg@)),
{
    KeyValue { key: String::from_str("message"), value: Typed::String(String::from_str(msg)) }
}

} // verus!
