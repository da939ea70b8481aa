//! Server-wide state shared by all sessions: seed peers and the
//! deduplication cache of package digests.
use vstd::prelude::*;
use crate::string_set::StringSet;

pub use crate::framing::ReadResult;

verus! {

/// A state of the server.
pub trait ServerState {}

/// Before the server is set up.
pub struct Initial;

/// Accepting sessions: the digests of the packages seen so far, and the
/// peers every session starts from.
pub struct Listening {
    cache: StringSet,
    peers: StringSet,
}

/// After the server stopped.
pub struct Disconnected;

impl ServerState for Initial {}

impl ServerState for Listening {}

impl ServerState for Disconnected {}

/// A server in state `S`.
pub struct Server<S: ServerState> {
    state: S,
}

impl Server<Initial> {
    /// A listening server with an empty cache, seeded with `peers`.
    pub fn new(peers: Vec<String>) -> (r: Server<Listening>)
        ensures
            r.wf(),
            r.cache()@ == Set::<Seq<char>>::empty(),
            r.peers()@ == peers@.map_values(|s: String| s@).to_set(),
    {
        let mut seeds = StringSet::new();
        seeds.insert_all(peers);
        assert(Set::<Seq<char>>::empty().union(peers@.map_values(|s: String| s@).to_set())
            =~= peers@.map_values(|s: String| s@).to_set());
        Server { state: Listening { cache: StringSet::new(), peers: seeds } }
    }
}

impl Server<Listening> {
    /// The digests of the packages seen so far.
    pub closed spec fn cache(&self) -> StringSet {
        self.state.cache
    }

    /// The seed peers.
    pub closed spec fn peers(&self) -> StringSet {
        self.state.peers
    }

    pub open spec fn wf(&self) -> bool {
        self.cache().wf() && self.peers().wf()
    }

    /// `v` if the cache holds it.
    pub fn get(&self, v: String) -> (r: Option<String>)
        ensures
            r.is_some() == self.cache()@.contains(v@),
            r.is_some() ==> r.unwrap() == v,
    {
        if self.state.cache.contains(&v) {
            Some(v)
        } else {
            None
        }
    }

    /// Adds `v` to the cache; returns whether it was not there before.
    pub fn set(&mut self, v: String) -> (r: bool)
        requires
            old(self).wf(),
        ensures
            final(self).wf(),
            final(self).cache()@ == old(self).cache()@.insert(v@),
            final(self).peers() == old(self).peers(),
            r == !old(self).cache()@.contains(v@),
    {
        self.state.cache.insert(v)
    }

    /// The seed peers, in the order they were given.
    pub fn seed_peers(&self) -> (r: Vec<String>)
        ensures
            r@.map_values(|s: String| s@).to_set() == self.peers()@,
            r@ == self.peers().elements(),
    {
        self.state.peers.to_vec()
    }
}

} // verus!
