//! The accepting side's offer and negotiation steps.
use vstd::prelude::*;
use crate::error::ProtocolError;
use crate::protocol::{
    ack_view, code_of, kind_of, MessageKind, MessageType, MyPkg, MyPkgAck, NegotiateMyPkgAck,
};
use crate::server::exchange::{Exchange, Ready};
use crate::server::server::{Listening, Server};
use crate::string_set::StringSet;

verus! {

/// Whether an offer of the package with digest `d` is one the acceptor
/// already holds, given the digests `cache` seen before it.
pub open spec fn offer_is_cached(cache: Set<Seq<char>>, d: Seq<char>) -> bool {
    cache.contains(d)
}

/// The digests seen after an offer of the package with digest `d`.
pub open spec fn cache_after_offer(cache: Set<Seq<char>>, d: Seq<char>) -> Set<Seq<char>> {
    cache.insert(d)
}

/// Deduplication is idempotent: once a package has been offered, offering it
/// again finds it cached, and leaves the cache as it was.
pub proof fn dedup_idempotence(cache: Set<Seq<char>>, d: Seq<char>)
    ensures
        offer_is_cached(cache_after_offer(cache, d), d),
        cache_after_offer(cache_after_offer(cache, d), d) == cache_after_offer(cache, d),
{
    assert(cache_after_offer(cache_after_offer(cache, d), d) =~= cache_after_offer(cache, d));
}

/// A state of the accepting side before the transfer.
pub trait OfferState {}

/// Waiting for the offer.
pub struct OfferMsg;

/// The offer was answered; negotiating peers.
pub struct Negotiate {
    mypkg: MyPkg,
    ack: MyPkgAck,
    peers: StringSet,
}

impl OfferState for OfferMsg {}

impl OfferState for Negotiate {}

impl Negotiate {
    /// Negotiation about `mypkg`, answered with `ack`, with no peers yet.
    pub fn new(mypkg: MyPkg, ack: MyPkgAck) -> (r: Self)
        ensures
            r.mypkg() == mypkg,
            r.ack() == ack,
            r.peers().wf(),
            r.peers()@ == Set::<Seq<char>>::empty(),
    {
        Negotiate { mypkg, ack, peers: StringSet::new() }
    }

    pub closed spec fn mypkg(&self) -> MyPkg {
        self.mypkg
    }

    pub closed spec fn ack(&self) -> MyPkgAck {
        self.ack
    }

    pub closed spec fn peers(&self) -> StringSet {
        self.peers
    }
}

/// The accepting side of a session before the transfer, in state `S`.
pub struct Offer<S: OfferState> {
    pub state: S,
}

impl Offer<OfferMsg> {
    /// A session waiting for an offer.
    pub fn new() -> (r: Offer<OfferMsg>) {
        Offer { state: OfferMsg }
    }

    /// Answers the offer `msg`. A package whose digest the server has seen is
    /// accepted as already held (`files: Some([])`); any other is accepted for
    /// transfer (`files: None`) and its digest goes into the cache.
    pub fn wait_for_mypkg(self, msg: MessageType, server: &mut Server<Listening>) -> (r: Result<
        (Offer<Negotiate>, MyPkgAck),
        ProtocolError,
    >)
        requires
            old(server).wf(),
        ensures
            final(server).wf(),
            final(server).peers() == old(server).peers(),
            match msg {
                MessageType::MyPkg(p) => {
                    &&& r.is_ok()
                    &&& final(server).cache()@ == cache_after_offer(old(server).cache()@, p.md5sum@)
                    &&& r.unwrap().1.md5sum == Some(p.md5sum)
                    &&& offer_is_cached(old(server).cache()@, p.md5sum@) ==> r.unwrap().1.files.is_some()
                        && r.unwrap().1.files.unwrap()@.len() == 0
                    &&& !offer_is_cached(old(server).cache()@, p.md5sum@) ==> r.unwrap().1.files.is_none()
                    &&& r.unwrap().0.state.mypkg() == p
                    &&& ack_view(r.unwrap().0.state.ack()) == ack_view(r.unwrap().1)
                    &&& r.unwrap().0.state.peers().wf()
                    &&& r.unwrap().0.state.peers()@ == Set::<Seq<char>>::empty()
                },
                _ => {
                    &&& r == Err::<(Offer<Negotiate>, MyPkgAck), ProtocolError>(
                        ProtocolError::UnexpectedMessage {
                            expected: code_of(MessageKind::MyPkg),
                            found: code_of(kind_of(msg)),
                        },
                    )
                    &&& final(server).cache() == old(server).cache()
                },
            },
    {
        let found = msg.message_type();
        let mypkg = match msg {
            MessageType::MyPkg(p) => p,
            _ => {
                return Err(ProtocolError::UnexpectedMessage { expected: 10, found });
            },
        };
        let accept = if server.get(mypkg.md5sum.clone()).is_some() {
            MyPkgAck { md5sum: Some(mypkg.md5sum.clone()), files: Some(Vec::new()) }
        } else {
            server.set(mypkg.md5sum.clone());
            MyPkgAck { md5sum: Some(mypkg.md5sum.clone()), files: None }
        };
        proof {
            if offer_is_cached(old(server).cache()@, mypkg.md5sum@) {
                assert(cache_after_offer(old(server).cache()@, mypkg.md5sum@) =~= old(
                    server,
                ).cache()@);
            }
        }
        let reply = accept.clone();
        let next = Offer { state: Negotiate::new(mypkg, accept) };
        Ok((next, reply))
    }
}

impl Offer<Negotiate> {
    /// Adds `peers` to the peers of the session.
    pub fn add_peers(self, peers: Vec<String>) -> (r: Self)
        requires
            self.state.peers().wf(),
        ensures
            r.state.mypkg() == self.state.mypkg(),
            r.state.ack() == self.state.ack(),
            r.state.peers().wf(),
            r.state.peers()@ == self.state.peers()@.union(
                peers@.map_values(|s: String| s@).to_set(),
            ),
    {
        let mut s = self;
        s.state.peers.insert_all(peers);
        s
    }

    /// The peers of the session, each once.
    pub fn peers(&self) -> (r: Vec<String>)
        ensures
            r@.map_values(|s: String| s@).to_set() == self.state.peers()@,
            r@ == self.state.peers().elements(),
    {
        self.state.peers.to_vec()
    }

    /// Answers the negotiation `msg`: its digest echoed, with the session's
    /// peers; the transfer of the package's files comes next.
    pub fn negotiate(self, msg: MessageType) -> (r: Result<
        (Exchange<Ready>, NegotiateMyPkgAck),
        ProtocolError,
    >)
        requires
            self.state.peers().wf(),
        ensures
            match msg {
                MessageType::NegotiateMyPkg(n) => {
                    &&& r.is_ok()
                    &&& r.unwrap().1.md5sum == n.md5sum
                    &&& r.unwrap().1.peers.is_some()
                    &&& r.unwrap().1.peers.unwrap()@ == self.state.peers().elements()
                    &&& r.unwrap().0.state.wf()
                    &&& r.unwrap().0.state.mypkg == self.state.mypkg()
                    &&& r.unwrap().0.state.ack == self.state.ack()
                    &&& r.unwrap().0.state.peers == self.state.peers()
                    &&& r.unwrap().0.state.next_file() == 0
                },
                _ => r == Err::<(Exchange<Ready>, NegotiateMyPkgAck), ProtocolError>(
                    ProtocolError::UnexpectedMessage {
                        expected: code_of(MessageKind::NegotiateMyPkg),
                        found: code_of(kind_of(msg)),
                    },
                ),
            },
    {
        let found = msg.message_type();
        let request = match msg {
            MessageType::NegotiateMyPkg(n) => n,
            _ => {
                return Err(ProtocolError::UnexpectedMessage { expected: 40, found });
            },
        };
        let reply = NegotiateMyPkgAck { md5sum: request.md5sum, peers: Some(self.peers()) };
        let Negotiate { mypkg, ack, peers } = self.state;
        let next = Exchange { state: Ready::new(peers, mypkg, ack) };
        Ok((next, reply))
    }
}

} // verus!
