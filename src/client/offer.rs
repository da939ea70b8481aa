//! The offering side's offer and negotiation steps.
use vstd::prelude::*;
use crate::client::exchange::{Exchange, Ready};
use crate::error::ProtocolError;
use crate::protocol::{
    ack_view, code_of, is_rejection, kind_of, MessageKind, MessageType, MyPkg, MyPkgAck,
    NegotiateMyPkg,
};
use crate::string_set::StringSet;

verus! {

/// A state of the offering side before the transfer.
pub trait OfferState {}

/// About to offer a package.
pub struct OfferMsg;

/// The offer was accepted; negotiating peers.
pub struct Negotiate {
    mypkg: MyPkg,
    ack: MyPkgAck,
    peers: StringSet,
}

impl OfferState for OfferMsg {}

impl OfferState for Negotiate {}

impl Negotiate {
    /// Negotiation about `mypkg`, accepted with `ack`, with no peers yet.
    pub fn new(mypkg: MyPkg, ack: MyPkgAck) -> (r: Self)
        ensures
            r.mypkg() == mypkg,
            r.ack() == ack,
            r.peers().wf(),
            r.peers()@ == Set::<Seq<char>>::empty(),
    {
        Negotiate { mypkg, ack, peers: StringSet::new() }
    }

    pub closed spec fn mypkg(&self) -> MyPkg {
        self.mypkg
    }

    pub closed spec fn ack(&self) -> MyPkgAck {
        self.ack
    }

    pub closed spec fn peers(&self) -> StringSet {
        self.peers
    }
}

/// The offering side of a session before the transfer, in state `S`.
pub struct Offer<S: OfferState> {
    pub state: S,
}

impl Offer<OfferMsg> {
    /// A session about to offer a package.
    pub fn new() -> (r: Offer<OfferMsg>) {
        Offer { state: OfferMsg }
    }

    /// Takes in the acceptor's answer `msg` to the offer of `mypkg`. An answer
    /// with neither a digest nor files declines it.
    pub fn offer(self, mypkg: MyPkg, msg: MessageType) -> (r: Result<
        Offer<Negotiate>,
        ProtocolError,
    >)
        ensures
            match msg {
                MessageType::MyPkgAck(ack) => if is_rejection(ack) {
                    r == Err::<Offer<Negotiate>, ProtocolError>(
                        ProtocolError::PeerNotInterested { md5sum: mypkg.md5sum },
                    )
                } else {
                    &&& r.is_ok()
                    &&& r.unwrap().state.mypkg() == mypkg
                    &&& r.unwrap().state.ack() == ack
                    &&& r.unwrap().state.peers().wf()
                    &&& r.unwrap().state.peers()@ == Set::<Seq<char>>::empty()
                },
                _ => r == Err::<Offer<Negotiate>, ProtocolError>(
                    ProtocolError::UnexpectedMessage {
                        expected: code_of(MessageKind::MyPkgAck),
                        found: code_of(kind_of(msg)),
                    },
                ),
            },
    {
        let found = msg.message_type();
        let ack = match msg {
            MessageType::MyPkgAck(ack) => ack,
            _ => {
                return Err(ProtocolError::UnexpectedMessage { expected: 30, found });
            },
        };
        if ack.md5sum.is_none() && ack.files.is_none() {
            return Err(ProtocolError::PeerNotInterested { md5sum: mypkg.md5sum });
        }
        Ok(Offer { state: Negotiate::new(mypkg, ack) })
    }
}

impl Offer<Negotiate> {
    /// Adds `peers` to the peers of the session.
    pub fn add_peers(self, peers: Vec<String>) -> (r: Self)
        requires
            self.state.peers().wf(),
        ensures
            r.state.mypkg() == self.state.mypkg(),
            r.state.ack() == self.state.ack(),
            r.state.peers().wf(),
            r.state.peers()@ == self.state.peers()@.union(
                peers@.map_values(|s: String| s@).to_set(),
            ),
    {
        let mut s = self;
        s.state.peers.insert_all(peers);
        s
    }

    /// The peers of the session, each once.
    pub fn peers(&self) -> (r: Vec<String>)
        ensures
            r@.map_values(|s: String| s@).to_set() == self.state.peers()@,
            r@ == self.state.peers().elements(),
    {
        self.state.peers.to_vec()
    }

    /// The negotiation request: the digest of the offered package.
    pub fn negotiate_message(&self) -> (r: NegotiateMyPkg)
        ensures
            r.md5sum == self.state.mypkg().md5sum,
    {
        NegotiateMyPkg { md5sum: self.state.mypkg.md5sum.clone() }
    }

    /// Takes in the acceptor's answer `msg` to the negotiation: the peers it
    /// names join the session's peers, and the transfer comes next.
    pub fn negotiate(self, msg: MessageType) -> (r: Result<Exchange<Ready>, ProtocolError>)
        requires
            self.state.peers().wf(),
        ensures
            match msg {
                MessageType::NegotiateMyPkgAck(a) => {
                    &&& r.is_ok()
                    &&& r.unwrap().state.mypkg == self.state.mypkg()
                    &&& ack_view(r.unwrap().state.ack) == ack_view(self.state.ack())
                    &&& r.unwrap().state.window.is_none()
                    &&& r.unwrap().state.peers.wf()
                    &&& r.unwrap().state.peers@ == match a.peers {
                        Some(v) => self.state.peers()@.union(
                            v@.map_values(|s: String| s@).to_set(),
                        ),
                        None => self.state.peers()@,
                    }
                },
                _ => r == Err::<Exchange<Ready>, ProtocolError>(
                    ProtocolError::UnexpectedMessage {
                        expected: code_of(MessageKind::NegotiateMyPkgAck),
                        found: code_of(kind_of(msg)),
                    },
                ),
            },
    {
        let found = msg.message_type();
        let resp = match msg {
            MessageType::NegotiateMyPkgAck(a) => a,
            _ => {
                return Err(ProtocolError::UnexpectedMessage { expected: 50, found });
            },
        };
        let Negotiate { mypkg, ack, peers } = self.state;
        let mut peers = peers;
        match resp.peers {
            Some(v) => {
                peers.insert_all(v);
            },
            None => {},
        }
        Ok(Exchange { state: Ready { mypkg, ack, peers, window: None } })
    }
}

} // verus!
