//! Handshake negotiation: picking the protocol version, frame size and
//! capabilities a connection will run with.

use vstd::prelude::*;
use crate::caps::Capability;
use crate::frame::{AgentHello, AgentHelloV, HaproxyHello};
use crate::framer::MAX_FRAME_SIZE;
use crate::status::Status;
use crate::version::{Version, version_le};

verus! {

/// What a successful negotiation settles: the version is supported by both
/// sides and is the highest such; the frame size is the pairwise minimum;
/// the capabilities are exactly those both sides offered.
pub open spec fn negotiated_ok(
    client_versions: Seq<Version>,
    client_mfs: u32,
    client_caps: Seq<Capability>,
    agent_versions: Seq<Version>,
    agent_mfs: u32,
    agent_caps: Seq<Capability>,
    version: Version,
    max_frame_size: u32,
    capabilities: Seq<Capability>,
) -> bool {
    &&& client_versions.contains(version)
    &&& agent_versions.contains(version)
    &&& forall|v: Version|
        client_versions.contains(v) && agent_versions.contains(v) ==> version_le(v, version)
    &&& max_frame_size == if client_mfs <= agent_mfs {
        client_mfs
    } else {
        agent_mfs
    }
    &&& forall|c: Capability|
        #[trigger] capabilities.contains(c) <==> client_caps.contains(c) && agent_caps.contains(c)
    &&& forall|i: int, j: int|
        0 <= i < j < capabilities.len() ==> capabilities[i] != capabilities[j]
}

/// The parameters a connection has settled on.
#[derive(Clone, Debug, PartialEq, Eq)]
pub struct Negotiated {
    /// The version both sides speak.
    pub version: Version,
    /// The largest frame either side may send.
    pub max_frame_size: u32,
    /// The capabilities both sides offered.
    pub capabilities: Vec<Capability>,
}

impl Negotiated {
    /// The agent hello announcing these parameters.
    pub fn agent_hello(&self) -> (r: AgentHello)
        ensures
            r@ == (AgentHelloV {
                version: self.version,
                max_frame_size: self.max_frame_size,
                capabilities: self.capabilities@,
            }),
    {
        AgentHello {
            version: self.version,
            max_frame_size: self.max_frame_size,
            capabilities: copy_caps(&self.capabilities),
        }
    }
}

/// Copies a capability list.
pub fn copy_caps(cs: &Vec<Capability>) -> (r: Vec<Capability>)
    ensures
        r@ == cs@,
{
    let mut out: Vec<Capability> = Vec::new();
    let mut i: usize = 0;
    while i < cs.len()
        invariant
            i <= cs.len(),
            out@ == cs@.subrange(0, i as int),
        decreases cs.len() - i,
    {
        out.push(cs[i]);
        i = i + 1;
        assert(out@ =~= cs@.subrange(0, i as int));
    }
    assert(out@ =~= cs@);
    out
}

fn versions_contain(vs: &Vec<Version>, v: &Version) -> (r: bool)
    ensures
        r == vs@.contains(*v),
{
    let mut i: usize = 0;
    while i < vs.len()
        invariant
            i <= vs.len(),
            forall|j: int| 0 <= j < i ==> vs@[j] != *v,
        decreases vs.len() - i,
    {
        if vs[i] == *v {
            return true;
        }
        i = i + 1;
    }
    false
}

/// Negotiates connection parameters from the client's hello and the agent's
/// configuration.  Succeeds exactly when some version is supported by both
/// sides, and then settles the highest such version, the smaller of the two
/// frame-size limits, and the capabilities offered by both.
pub fn negotiate(
    supported_versions: &Vec<Version>,
    max_frame_size: u32,
    capabilities: &Vec<Capability>,
    hello: &HaproxyHello,
) -> (r: Result<Negotiated, Status>)
    ensures
        match r {
            Ok(n) => negotiated_ok(
                hello.supported_versions@,
                hello.max_frame_size,
                hello.capabilities@,
                supported_versions@,
                max_frame_size,
                capabilities@,
                n.version,
                n.max_frame_size,
                n.capabilities@,
            ),
            Err(e) => {
                &&& e == Status::NoVersion
                &&& forall|v: Version|
                    !(hello.supported_versions@.contains(v) && #[trigger] supported_versions@.contains(
                        v,
                    ))
            },
        },
{
    let mut best: Option<Version> = None;
    let mut i: usize = 0;
    while i < hello.supported_versions.len()
        invariant
            i <= hello.supported_versions@.len(),
            match best {
                Some(b) => {
                    &&& hello.supported_versions@.contains(b)
                    &&& supported_versions@.contains(b)
                    &&& forall|j: int|
                        0 <= j < i && supported_versions@.contains(
                            #[trigger] hello.supported_versions@[j],
                        ) ==> version_le(hello.supported_versions@[j], b)
                },
                None => forall|j: int|
                    0 <= j < i ==> !supported_versions@.contains(
                        #[trigger] hello.supported_versions@[j],
                    ),
            },
        decreases hello.supported_versions@.len() - i,
    {
        let v = hello.supported_versions[i];
        if versions_contain(supported_versions, &v) {
            match &best {
                None => {
                    best = Some(v);
                },
                Some(b) => {
                    if b.le(&v) {
                        best = Some(v);
                    }
                },
            }
        }
        i = i + 1;
    }
    let version = match best {
        None => {
            assert forall|v: Version|
                !(hello.supported_versions@.contains(v)
                    && #[trigger] supported_versions@.contains(v)) by {
                if hello.supported_versions@.contains(v) {
                    let j = choose|j: int|
                        0 <= j < hello.supported_versions@.len()
                            && hello.supported_versions@[j] == v;
                    assert(!supported_versions@.contains(hello.supported_versions@[j]));
                }
            }
            return Err(Status::NoVersion);
        },
        Some(b) => b,
    };
    assert forall|v: Version|
        hello.supported_versions@.contains(v) && supported_versions@.contains(v) implies version_le(
        v,
        version,
    ) by {
        let j = choose|j: int|
            0 <= j < hello.supported_versions@.len() && hello.supported_versions@[j] == v;
        assert(supported_versions@.contains(hello.supported_versions@[j]));
    }
    let mfs = if hello.max_frame_size <= max_frame_size {
        hello.max_frame_size
    } else {
        max_frame_size
    };
    let mut caps: Vec<Capability> = Vec::new();
    let mut i: usize = 0;
    while i < hello.capabilities.len()
        invariant
            i <= hello.capabilities@.len(),
            forall|c: Capability|
                #[trigger] caps@.contains(c) ==> hello.capabilities@.contains(c)
                    && capabilities@.contains(c),
            forall|j: int|
                0 <= j < i && capabilities@.contains(#[trigger] hello.capabilities@[j])
                    ==> caps@.contains(hello.capabilities@[j]),
            forall|a: int, b: int| 0 <= a < b < caps@.len() ==> caps@[a] != caps@[b],
        decreases hello.capabilities@.len() - i,
    {
        let c = hello.capabilities[i];
        if crate::caps::caps_contain(capabilities, c) && !crate::caps::caps_contain(&caps, c) {
            let ghost pre = caps@;
            caps.push(c);
            proof {
                assert(hello.capabilities@.contains(hello.capabilities@[i as int]));
                assert forall|x: Capability| #[trigger] caps@.contains(x) implies
                    hello.capabilities@.contains(x) && capabilities@.contains(x) by {
                    if x != c {
                        assert(pre.contains(x)) by {
                            let k = choose|k: int| 0 <= k < caps@.len() && caps@[k] == x;
                            assert(pre[k] == x);
                        }
                    }
                }
                assert(caps@.contains(c)) by {
                    assert(caps@[caps@.len() - 1] == c);
                }
                assert forall|j: int|
                    0 <= j < i + 1 && capabilities@.contains(#[trigger] hello.capabilities@[j])
                        implies caps@.contains(hello.capabilities@[j]) by {
                    if j < i && pre.contains(hello.capabilities@[j]) {
                        let k = choose|k: int| 0 <= k < pre.len() && pre[k] == hello.capabilities@[j];
                        assert(caps@[k] == hello.capabilities@[j]);
                    }
                }
            }
        } else {
            proof {
                if capabilities@.contains(hello.capabilities@[i as int]) {
                    assert(caps@.contains(hello.capabilities@[i as int]));
                }
            }
        }
        i = i + 1;
    }
    assert forall|c: Capability| #[trigger]
        caps@.contains(c) <==> hello.capabilities@.contains(c) && capabilities@.contains(c) by {
        if hello.capabilities@.contains(c) && capabilities@.contains(c) {
            let j = choose|j: int|
                0 <= j < hello.capabilities@.len() && hello.capabilities@[j] == c;
            assert(capabilities@.contains(hello.capabilities@[j]));
        }
    }
    Ok(Negotiated { version, max_frame_size: mfs, capabilities: caps })
}

/// The agent's side of a pending handshake: what it is willing to accept.
#[derive(Clone, Debug, PartialEq, Eq)]
pub struct Handshaking {
    /// The versions the agent supports.
    pub supported_versions: Vec<Version>,
    /// The largest frame the agent accepts.
    pub max_frame_size: u32,
    /// The capabilities the agent offers.
    pub capabilities: Vec<Capability>,
}

impl Default for Handshaking {
    /// The stock configuration: the one defined version, the default frame
    /// size, and every capability.
    fn default() -> (r: Handshaking)
        ensures
            r.supported_versions@ == seq![Version { major: 2u8, minor: 0u8 }],
            r.max_frame_size == MAX_FRAME_SIZE as u32,
            r.capabilities@ == seq![
                Capability::Fragmentation,
                Capability::Async,
                Capability::Pipelining,
            ],
    {
        let mut supported_versions: Vec<Version> = Vec::new();
        supported_versions.push(Version { major: 2, minor: 0 });
        let mut capabilities: Vec<Capability> = Vec::new();
        capabilities.push(Capability::Fragmentation);
        capabilities.push(Capability::Async);
        capabilities.push(Capability::Pipelining);
        let r = Handshaking {
            supported_versions,
            max_frame_size: 16384,
            capabilities,
        };
        assert(r.supported_versions@ =~= seq![Version { major: 2u8, minor: 0u8 }]);
        assert(r.capabilities@ =~= seq![
            Capability::Fragmentation,
            Capability::Async,
            Capability::Pipelining,
        ]);
        r
    }
}

impl Handshaking {
    /// Negotiates against the client's hello.
    pub fn handshake(self, hello: &HaproxyHello) -> (r: Result<Handshaked, Status>)
        ensures
            match r {
                Ok(n) => negotiated_ok(
                    hello.supported_versions@,
                    hello.max_frame_size,
                    hello.capabilities@,
                    self.supported_versions@,
                    self.max_frame_size,
                    self.capabilities@,
                    n.version,
                    n.max_frame_size,
                    n.capabilities@,
                ),
                Err(e) => {
                    &&& e == Status::NoVersion
                    &&& forall|v: Version|
                        !(hello.supported_versions@.contains(v)
                            && #[trigger] self.supported_versions@.contains(v))
                },
            },
    {
        match negotiate(&self.supported_versions, self.max_frame_size, &self.capabilities, hello) {
            Ok(n) => Ok(
                Handshaked {
                    version: n.version,
                    max_frame_size: n.max_frame_size,
                    capabilities: n.capabilities,
                },
            ),
            Err(e) => Err(e),
        }
    }
}

/// A finished handshake, holding what was settled.
#[derive(Clone, Debug, PartialEq, Eq)]
pub struct Handshaked {
    pub version: Version,
    pub max_frame_size: u32,
    pub capabilities: Vec<Capability>,
}

impl Handshaked {
    /// The agent hello announcing the settled parameters.
    pub fn agent_hello(&self) -> (r: AgentHello)
        ensures
            r@ == (AgentHelloV {
                version: self.version,
                max_frame_size: self.max_frame_size,
                capabilities: self.capabilities@,
            }),
    {
        AgentHello {
            version: self.version,
            max_frame_size: self.max_frame_size,
            capabilities: copy_caps(&self.capabilities),
        }
    }

    /// Whether fragmentation was negotiated.
    pub fn supports_fragmentation(&self) -> (r: bool)
        ensures
            r == self.capabilities@.contains(Capability::Fragmentation),
    {
        crate::caps::caps_contain(&self.capabilities, Capability::Fragmentation)
    }
}

} // verus!
