//! Protocol-level configuration and the plain data shells around serving:
//! what the agent offers in handshakes, and the pieces a server loop is
//! assembled from.  Driving sockets and services belongs to the caller.

use vstd::prelude::*;
use crate::caps::Capability;
use crate::framer::MAX_FRAME_SIZE;
use crate::version::Version;

verus! {

/// What the agent offers when handshaking: versions, frame size limit, and
/// capabilities.
#[derive(Clone, Debug, PartialEq, Eq)]
pub struct Protocol {
    pub supported_versions: Vec<Version>,
    pub max_frame_size: u32,
    pub capabilities: Vec<Capability>,
}

impl Default for Protocol {
    /// The stock offer: the one defined version, the default frame size,
    /// and every capability.
    fn default() -> (r: Protocol)
        ensures
            r.supported_versions@ == seq![Version { major: 2u8, minor: 0u8 }],
            r.max_frame_size == MAX_FRAME_SIZE as u32,
            r.capabilities@ == seq![
                Capability::Fragmentation,
                Capability::Async,
                Capability::Pipelining,
            ],
    {
        let mut supported_versions: Vec<Version> = Vec::new();
        supported_versions.push(Version { major: 2, minor: 0 });
        let mut capabilities: Vec<Capability> = Vec::new();
        capabilities.push(Capability::Fragmentation);
        capabilities.push(Capability::Async);
        capabilities.push(Capability::Pipelining);
        let r = Protocol { supported_versions, max_frame_size: 16384, capabilities };
        assert(r.supported_versions@ =~= seq![Version { major: 2u8, minor: 0u8 }]);
        assert(r.capabilities@ =~= seq![
            Capability::Fragmentation,
            Capability::Async,
            Capability::Pipelining,
        ]);
        r
    }
}

impl Protocol {
    /// Adds a supported version, once.
    pub fn supported_version(&mut self, version: Version)
        ensures
            final(self).max_frame_size == old(self).max_frame_size,
            final(self).capabilities == old(self).capabilities,
            final(self).supported_versions@ == if old(self).supported_versions@.contains(version) {
                old(self).supported_versions@
            } else {
                old(self).supported_versions@.push(version)
            },
    {
        let mut i: usize = 0;
        while i < self.supported_versions.len()
            invariant
                i <= self.supported_versions@.len(),
                *self == *old(self),
                forall|j: int| 0 <= j < i ==> old(self).supported_versions@[j] != version,
            decreases self.supported_versions@.len() - i,
        {
            if self.supported_versions[i] == version {
                return ;
            }
            i = i + 1;
        }
        self.supported_versions.push(version);
    }

    /// Sets the frame size limit.
    pub fn max_frame_size(&mut self, max_frame_size: u32)
        ensures
            final(self).max_frame_size == max_frame_size,
            final(self).supported_versions == old(self).supported_versions,
            final(self).capabilities == old(self).capabilities,
    {
        self.max_frame_size = max_frame_size;
    }

    /// Adds a capability, once.
    pub fn with_capability(&mut self, capability: Capability)
        ensures
            final(self).max_frame_size == old(self).max_frame_size,
            final(self).supported_versions == old(self).supported_versions,
            final(self).capabilities@ == if old(self).capabilities@.contains(capability) {
                old(self).capabilities@
            } else {
                old(self).capabilities@.push(capability)
            },
    {
        if !crate::caps::caps_contain(&self.capabilities, capability) {
            self.capabilities.push(capability);
        }
    }

    /// Pairs this offer with a connection source and a service factory.
    pub fn serve<I, S>(self, incoming: I, make_service: S) -> (r: Serve<I, S>)
        ensures
            r.protocol == self,
    {
        Serve { incoming, protocol: self, make_service }
    }
}

/// A connection source, a protocol offer, and a service factory, waiting to
/// be driven.
#[derive(Debug)]
pub struct Serve<I, S> {
    pub incoming: I,
    pub protocol: Protocol,
    pub make_service: S,
}

impl<I, S> Serve<I, S> {
    /// Wraps this into the shape the accept loop consumes.
    pub fn spawn_all(self) -> (r: SpawnAll<I, S>)
        ensures
            r.serve.protocol == self.protocol,
    {
        SpawnAll { serve: self }
    }
}

/// The accept loop's state: every accepted connection is served.
#[derive(Debug)]
pub struct SpawnAll<I, S> {
    pub serve: Serve<I, S>,
}

/// A connection that has been accepted but whose handshake has not finished.
#[derive(Debug)]
pub struct Handshaking<F, IO> {
    pub future: F,
    pub io: Option<IO>,
    pub protocol: Protocol,
}

/// A service factory together with the per-connection target it is applied
/// to.
#[derive(Debug)]
pub struct ServiceMaker<S, T> {
    pub maker: S,
    pub state: T,
}

impl<S, T> ServiceMaker<S, T> {
    pub fn new(maker: S, state: T) -> ServiceMaker<S, T> {
        ServiceMaker { maker, state }
    }
}

/// A service factory built from a plain function.
#[derive(Clone, Copy, Debug)]
pub struct MakeServiceFn<F>(pub F);

/// Wraps a function as a service factory.
pub fn make_service_fn<F>(f: F) -> MakeServiceFn<F> {
    MakeServiceFn(f)
}

/// A whole server: an accept loop around a protocol offer.
#[derive(Debug)]
pub struct Server<I, S> {
    pub spawn_all: SpawnAll<I, S>,
}

/// Step-by-step configuration of a [`Server`].
#[derive(Debug)]
pub struct Builder<I> {
    pub incoming: I,
    pub protocol: Protocol,
}

impl<I> Server<I, ()> {
    /// Starts a builder around a connection source.
    pub fn builder(incoming: I) -> (r: Builder<I>)
        ensures
            r.protocol.supported_versions@ == seq![Version { major: 2u8, minor: 0u8 }],
            r.protocol.max_frame_size == MAX_FRAME_SIZE as u32,
            r.protocol.capabilities@ == seq![
                Capability::Fragmentation,
                Capability::Async,
                Capability::Pipelining,
            ],
    {
        Builder { incoming, protocol: Protocol::default() }
    }
}

impl<I> Builder<I> {
    /// Adds a supported version.
    pub fn supported_version(self, version: Version) -> (r: Builder<I>)
        ensures
            r.protocol.max_frame_size == self.protocol.max_frame_size,
            r.protocol.capabilities == self.protocol.capabilities,
            r.protocol.supported_versions@ == if self.protocol.supported_versions@.contains(
                version,
            ) {
                self.protocol.supported_versions@
            } else {
                self.protocol.supported_versions@.push(version)
            },
    {
        let mut b = self;
        b.protocol.supported_version(version);
        b
    }

    /// Sets the frame size limit.
    pub fn max_frame_size(self, max_frame_size: u32) -> (r: Builder<I>)
        ensures
            r.protocol.max_frame_size == max_frame_size,
            r.protocol.supported_versions == self.protocol.supported_versions,
            r.protocol.capabilities == self.protocol.capabilities,
    {
        let mut b = self;
        b.protocol.max_frame_size(max_frame_size);
        b
    }

    /// Adds a capability.
    pub fn with_capability(self, capability: Capability) -> (r: Builder<I>)
        ensures
            r.protocol.max_frame_size == self.protocol.max_frame_size,
            r.protocol.supported_versions == self.protocol.supported_versions,
            r.protocol.capabilities@ == if self.protocol.capabilities@.contains(capability) {
                self.protocol.capabilities@
            } else {
                self.protocol.capabilities@.push(capability)
            },
    {
        let mut b = self;
        b.protocol.with_capability(capability);
        b
    }

    /// Finishes the server around a service factory.
    pub fn serve<S>(self, new_service: S) -> (r: Server<I, S>)
        ensures
            r.spawn_all.serve.protocol == self.protocol,
    {
        Server { spawn_all: self.protocol.serve(self.incoming, new_service).spawn_all() }
    }
}

} // verus!
