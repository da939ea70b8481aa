//! The offering side's transfer: for each file a piece exchange, then its
//! pieces in increasing order.
use vstd::prelude::*;
use crate::error::ProtocolError;
use crate::protocol::{
    clone_files, code_of, is_cached_ack, kind_of, File, MessageKind, MessageType, MyPkg,
    MyPkgAck, Piece, PieceExchange, PieceExchangeAck,
};
use crate::string_set::StringSet;

verus! {

/// The pieces `[start, end)` of the file being sent; `next` goes next.
#[derive(Clone, Copy, Debug, PartialEq, Eq, Structural)]
pub struct Window {
    pub start: u64,
    pub end: u64,
    pub next: u64,
}

/// A state of the offering side's transfer.
pub trait ExchangeState {}

/// Negotiated: the files of `mypkg` may be sent.
pub struct Ready {
    pub mypkg: MyPkg,
    pub ack: MyPkgAck,
    pub peers: StringSet,
    /// The window of the file being sent, once its exchange was sent.
    pub window: Option<Window>,
}

impl ExchangeState for Ready {}

/// The offering side's transfer, in state `S`.
pub struct Exchange<S: ExchangeState> {
    pub state: S,
}

impl Exchange<Ready> {
    /// The files to send, in order: none where the acceptor already holds
    /// the package.
    pub fn files_to_send(&self) -> (r: Vec<File>)
        ensures
            is_cached_ack(self.state.ack) ==> r@.len() == 0,
            !is_cached_ack(self.state.ack) ==> r@ == self.state.mypkg.files@,
    {
        let cached = match &self.state.ack.files {
            Some(v) => v.len() == 0,
            None => false,
        };
        if cached {
            Vec::new()
        } else {
            clone_files(&self.state.mypkg.files)
        }
    }

    /// The piece exchange announcing pieces `[pieces[0], pieces[1])` of
    /// `file`; those pieces may be sent from now on, from the first.
    pub fn exchange(&mut self, pieces: [u64; 2], file: File) -> (r: PieceExchange)
        ensures
            r.pieces == pieces,
            r.file == file,
            final(self).state.window == Some(
                Window { start: pieces[0], end: pieces[1], next: pieces[0] },
            ),
            final(self).state.mypkg == old(self).state.mypkg,
            final(self).state.ack == old(self).state.ack,
            final(self).state.peers == old(self).state.peers,
    {
        self.state.window = Some(Window { start: pieces[0], end: pieces[1], next: pieces[0] });
        PieceExchange { pieces, file }
    }

    /// Checks the acceptor's answer `msg` to a piece exchange.
    pub fn exchange_ack(&self, msg: MessageType) -> (r: Result<PieceExchangeAck, ProtocolError>)
        ensures
            match msg {
                MessageType::PieceExchangeAck(a) => r == Ok::<PieceExchangeAck, ProtocolError>(a),
                _ => r == Err::<PieceExchangeAck, ProtocolError>(
                    ProtocolError::UnexpectedMessage {
                        expected: code_of(MessageKind::PieceExchangeAck),
                        found: code_of(kind_of(msg)),
                    },
                ),
            },
    {
        let found = msg.message_type();
        match msg {
            MessageType::PieceExchangeAck(a) => Ok(a),
            _ => Err(ProtocolError::UnexpectedMessage { expected: 70, found }),
        }
    }

    /// The message carrying piece `piece` with content `data`. Pieces go
    /// only after a piece exchange, inside its window and in increasing order.
    pub fn send(&mut self, piece: u64, data: Vec<u8>) -> (r: Result<Piece, ProtocolError>)
        ensures
            final(self).state.mypkg == old(self).state.mypkg,
            final(self).state.ack == old(self).state.ack,
            final(self).state.peers == old(self).state.peers,
            match old(self).state.window {
                None => {
                    &&& r == Err::<Piece, ProtocolError>(
                        ProtocolError::UnexpectedMessage {
                            expected: code_of(MessageKind::PieceExchange),
                            found: code_of(MessageKind::Piece),
                        },
                    )
                    &&& final(self).state.window == old(self).state.window
                },
                Some(w) => if piece < w.start || piece >= w.end {
                    &&& r == Err::<Piece, ProtocolError>(
                        ProtocolError::PieceOutOfBounds { piece, start: w.start, end: w.end },
                    )
                    &&& final(self).state.window == old(self).state.window
                } else if piece != w.next {
                    &&& r == Err::<Piece, ProtocolError>(
                        ProtocolError::PieceOutOfOrder { expected_piece: w.next, piece },
                    )
                    &&& final(self).state.window == old(self).state.window
                } else {
                    &&& r == Ok::<Piece, ProtocolError>(Piece { piece, ack: None, data })
                    &&& final(self).state.window == Some(Window { next: (piece + 1) as u64, ..w })
                },
            },
    {
        let w = match self.state.window {
            Some(w) => w,
            None => {
                return Err(ProtocolError::UnexpectedMessage { expected: 60, found: 80 });
            },
        };
        if piece < w.start || piece >= w.end {
            return Err(ProtocolError::PieceOutOfBounds { piece, start: w.start, end: w.end });
        }
        if piece != w.next {
            return Err(ProtocolError::PieceOutOfOrder { expected_piece: w.next, piece });
        }
        self.state.window = Some(Window { start: w.start, end: w.end, next: piece + 1 });
        Ok(Piece { piece, ack: None, data })
    }
}

} // verus!
