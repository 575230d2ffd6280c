//! The process-wide runtime configuration: immutable after construction and
//! shared read-only by every connection.

use vstd::prelude::*;
use crate::caps::Capability;
use crate::framer::MAX_FRAME_SIZE;
use crate::version::Version;

verus! {

/// The default bound on one service invocation, in milliseconds.
pub const MAX_PROCESS_TIME_MS: u64 = 15000;

/// The configuration every connection runs under.
#[derive(Clone, Debug, PartialEq, Eq)]
pub struct Runtime {
    /// The versions the agent supports.
    pub supported_versions: Vec<Version>,
    /// The capabilities the agent offers.
    pub capabilities: Vec<Capability>,
    /// The largest frame the agent accepts.
    pub max_frame_size: u32,
    /// The bound on one service invocation, in milliseconds.
    pub max_process_time_ms: u64,
}

impl Runtime {
    /// Builds a runtime from its parts.
    pub fn new(
        supported_versions: Vec<Version>,
        capabilities: Vec<Capability>,
        max_frame_size: u32,
        max_process_time_ms: u64,
    ) -> (r: Runtime)
        ensures
            r.supported_versions == supported_versions,
            r.capabilities == capabilities,
            r.max_frame_size == max_frame_size,
            r.max_process_time_ms == max_process_time_ms,
    {
        Runtime { supported_versions, capabilities, max_frame_size, max_process_time_ms }
    }
}

/// Step-by-step construction of a [`Runtime`].
#[derive(Debug, PartialEq, Eq)]
pub struct Builder {
    pub supported_versions: Vec<Version>,
    pub capabilities: Vec<Capability>,
    pub max_frame_size: Option<u32>,
    pub max_process_time_ms: Option<u64>,
}

impl Default for Builder {
    fn default() -> (r: Builder)
        ensures
            r.supported_versions@ == Seq::<Version>::empty(),
            r.capabilities@ == Seq::<Capability>::empty(),
            r.max_frame_size is None,
            r.max_process_time_ms is None,
    {
        let r = Builder {
            supported_versions: Vec::new(),
            capabilities: Vec::new(),
            max_frame_size: None,
            max_process_time_ms: None,
        };
        r
    }
}

impl Builder {
    /// An empty builder.
    pub fn new() -> (r: Builder)
        ensures
            r.supported_versions@ == Seq::<Version>::empty(),
            r.capabilities@ == Seq::<Capability>::empty(),
            r.max_frame_size is None,
            r.max_process_time_ms is None,
    {
        Builder::default()
    }

    /// Adds a supported version, once.
    pub fn version(self, version: Version) -> (r: Builder)
        ensures
            r.capabilities == self.capabilities,
            r.max_frame_size == self.max_frame_size,
            r.max_process_time_ms == self.max_process_time_ms,
            r.supported_versions@ == if self.supported_versions@.contains(version) {
                self.supported_versions@
            } else {
                self.supported_versions@.push(version)
            },
    {
        let mut b = self;
        let mut i: usize = 0;
        while i < b.supported_versions.len()
            invariant
                i <= b.supported_versions@.len(),
                b == self,
                forall|j: int| 0 <= j < i ==> self.supported_versions@[j] != version,
            decreases b.supported_versions@.len() - i,
        {
            if b.supported_versions[i] == version {
                return b;
            }
            i = i + 1;
        }
        b.supported_versions.push(version);
        b
    }

    /// Offers the fragmentation capability.
    pub fn fragmentation(self) -> (r: Builder)
        ensures
            r.supported_versions == self.supported_versions,
            r.max_frame_size == self.max_frame_size,
            r.max_process_time_ms == self.max_process_time_ms,
            r.capabilities@ == if self.capabilities@.contains(Capability::Fragmentation) {
                self.capabilities@
            } else {
                self.capabilities@.push(Capability::Fragmentation)
            },
    {
        self.capability(Capability::Fragmentation)
    }

    /// Offers the pipelining capability.
    pub fn pipelining(self) -> (r: Builder)
        ensures
            r.supported_versions == self.supported_versions,
            r.max_frame_size == self.max_frame_size,
            r.max_process_time_ms == self.max_process_time_ms,
            r.capabilities@ == if self.capabilities@.contains(Capability::Pipelining) {
                self.capabilities@
            } else {
                self.capabilities@.push(Capability::Pipelining)
            },
    {
        self.capability(Capability::Pipelining)
    }

    /// Offers the async capability.
    pub fn asynchronous(self) -> (r: Builder)
        ensures
            r.supported_versions == self.supported_versions,
            r.max_frame_size == self.max_frame_size,
            r.max_process_time_ms == self.max_process_time_ms,
            r.capabilities@ == if self.capabilities@.contains(Capability::Async) {
                self.capabilities@
            } else {
                self.capabilities@.push(Capability::Async)
            },
    {
        self.capability(Capability::Async)
    }

    /// Offers each of the given capabilities.
    pub fn capabilities(self, caps: Vec<Capability>) -> (r: Builder)
        ensures
            r.supported_versions == self.supported_versions,
            r.max_frame_size == self.max_frame_size,
            r.max_process_time_ms == self.max_process_time_ms,
            forall|c: Capability|
                #[trigger] r.capabilities@.contains(c) <==> (self.capabilities@.contains(c)
                    || caps@.contains(c)),
    {
        let mut b = self;
        let mut i: usize = 0;
        while i < caps.len()
            invariant
                i <= caps@.len(),
                b.supported_versions == self.supported_versions,
                b.max_frame_size == self.max_frame_size,
                b.max_process_time_ms == self.max_process_time_ms,
                forall|c: Capability|
                    #[trigger] b.capabilities@.contains(c) <==> (self.capabilities@.contains(c)
                        || caps@.subrange(0, i as int).contains(c)),
            decreases caps@.len() - i,
        {
            let ghost pre = b.capabilities@;
            let c = caps[i];
            b = b.capability(c);
            proof {
                if !pre.contains(c) {
                    assert(b.capabilities@ == pre.push(c));
                    assert(b.capabilities@[b.capabilities@.len() - 1] == c);
                    assert forall|x: Capability| #[trigger] b.capabilities@.contains(x) implies (
                    pre.contains(x) || x == c) by {
                        if x != c {
                            let j = choose|j: int|
                                0 <= j < b.capabilities@.len() && b.capabilities@[j] == x;
                            assert(pre[j] == x);
                        }
                    }
                    assert forall|x: Capability|
                        pre.contains(x) implies #[trigger] b.capabilities@.contains(x) by {
                        let j = choose|j: int| 0 <= j < pre.len() && pre[j] == x;
                        assert(b.capabilities@[j] == x);
                    }
                }
                assert forall|x: Capability|
                    caps@.subrange(0, i + 1).contains(x) implies (caps@.subrange(
                    0,
                    i as int,
                ).contains(x) || x == caps@[i as int]) by {
                    let j = choose|j: int| 0 <= j < i + 1 && #[trigger] caps@.subrange(0, i + 1)[j] == x;
                    if j < i {
                        assert(caps@.subrange(0, i as int)[j] == x);
                    }
                }
                assert(caps@.subrange(0, i + 1).contains(caps@[i as int])) by {
                    assert(caps@.subrange(0, i + 1)[i as int] == caps@[i as int]);
                }
                assert forall|x: Capability|
                    caps@.subrange(0, i as int).contains(x) implies caps@.subrange(
                    0,
                    i + 1,
                ).contains(x) by {
                    let j = choose|j: int| 0 <= j < i && caps@.subrange(0, i as int)[j] == x;
                    assert(caps@.subrange(0, i + 1)[j] == x);
                }
            }
            i = i + 1;
        }
        assert(caps@.subrange(0, caps@.len() as int) =~= caps@);
        b
    }

    /// Offers one capability, once.
    pub fn capability(self, cap: Capability) -> (r: Builder)
        ensures
            r.supported_versions == self.supported_versions,
            r.max_frame_size == self.max_frame_size,
            r.max_process_time_ms == self.max_process_time_ms,
            r.capabilities@ == if self.capabilities@.contains(cap) {
                self.capabilities@
            } else {
                self.capabilities@.push(cap)
            },
    {
        let mut b = self;
        if !crate::caps::caps_contain(&b.capabilities, cap) {
            b.capabilities.push(cap);
        }
        b
    }

    /// Sets the frame size limit.
    pub fn max_frame_size(self, sz: u32) -> (r: Builder)
        ensures
            r.supported_versions == self.supported_versions,
            r.capabilities == self.capabilities,
            r.max_process_time_ms == self.max_process_time_ms,
            r.max_frame_size == Some(sz),
    {
        let mut b = self;
        b.max_frame_size = Some(sz);
        b
    }

    /// Bounds one service invocation, in milliseconds.
    pub fn max_process_time(self, ms: u64) -> (r: Builder)
        ensures
            r.supported_versions == self.supported_versions,
            r.capabilities == self.capabilities,
            r.max_frame_size == self.max_frame_size,
            r.max_process_time_ms == Some(ms),
    {
        let mut b = self;
        b.max_process_time_ms = Some(ms);
        b
    }

    /// Finishes the runtime, filling unset limits with the defaults.
    pub fn build(self) -> (r: Runtime)
        ensures
            r.supported_versions == self.supported_versions,
            r.capabilities == self.capabilities,
            r.max_frame_size == match self.max_frame_size {
                Some(sz) => sz,
                None => MAX_FRAME_SIZE as u32,
            },
            r.max_process_time_ms == match self.max_process_time_ms {
                Some(ms) => ms,
                None => MAX_PROCESS_TIME_MS,
            },
    {
        let max_frame_size = match self.max_frame_size {
            Some(sz) => sz,
            None => 16384,
        };
        let max_process_time_ms = match self.max_process_time_ms {
            Some(ms) => ms,
            None => MAX_PROCESS_TIME_MS,
        };
        Runtime {
            supported_versions: self.supported_versions,
            capabilities: self.capabilities,
            max_frame_size,
            max_process_time_ms,
        }
    }
}

} // verus!
