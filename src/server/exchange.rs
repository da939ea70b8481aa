//! The accepting side's transfer: one piece exchange per file, then the
//! file's pieces.
use vstd::prelude::*;
use vstd::string::*;
use crate::error::ProtocolError;
use crate::protocol::{
    block_offset, block_offset_of, code_of, is_cached_ack, filename_of, kind_of, File, MessageKind,
    MessageType, MyPkg, MyPkgAck, PieceAck, PieceExchangeAck, BLOCK_SIZE, chunk_count_of,
};
use crate::string_set::StringSet;

verus! {

/// The contiguous-piece marker after piece `piece` arrived: it moves to
/// `piece` when `piece` is 0 or directly follows it.
pub open spec fn next_contiguous(contiguous: u64, piece: u64) -> u64 {
    if piece == 0 || piece - 1 == contiguous {
        piece
    } else {
        contiguous
    }
}

/// Number of pieces in the window `[start, end)`.
pub open spec fn window_len(pieces: [u64; 2]) -> nat {
    if pieces[1] >= pieces[0] {
        (pieces[1] - pieces[0]) as nat
    } else {
        0
    }
}

/// The path a received file is stored at: `data/<package digest>/<filename>`.
pub open spec fn destination_of(md5sum: Seq<char>, path: Seq<char>) -> Seq<char> {
    seq!['d', 'a', 't', 'a', '/'] + md5sum + seq!['/'] + filename_of(path)
}

/// A state of the accepting side's transfer.
pub trait ExchangeState {}

/// Between files: waiting for the next piece exchange.
pub struct Ready {
    pub peers: StringSet,
    pub mypkg: MyPkg,
    pub ack: MyPkgAck,
    pub next_file: usize,
}

/// Receiving the pieces `[pieces[0], pieces[1])` of `file`.
pub struct Running {
    pub pieces: [u64; 2],
    pub file: File,
    pub last_state: Ready,
    pub contiguous: u64,
    pub received: u64,
}

impl ExchangeState for Ready {}

impl ExchangeState for Running {}

impl Ready {
    /// Ready to receive the files of `mypkg`, from the first.
    pub fn new(peers: StringSet, mypkg: MyPkg, ack: MyPkgAck) -> (r: Ready)
        ensures
            r.peers == peers,
            r.mypkg == mypkg,
            r.ack == ack,
            r.next_file() == 0,
            r.wf(),
    {
        Ready { peers, mypkg, ack, next_file: 0 }
    }

    /// Index of the next file of the package to receive.
    pub open spec fn next_file(&self) -> nat {
        self.next_file as nat
    }

    pub open spec fn wf(&self) -> bool {
        self.next_file() <= self.mypkg.files@.len()
    }

    /// The files still to receive: none where the package was already held.
    pub open spec fn pending(&self) -> Seq<File> {
        if is_cached_ack(self.ack) {
            Seq::empty()
        } else {
            self.mypkg.files@.skip(self.next_file() as int)
        }
    }
}

/// What to do with a received piece: write `data` at byte `offset` of the
/// file, and send `ack` back where there is one.
#[derive(Debug, PartialEq, Eq)]
pub struct PieceWrite {
    pub offset: u64,
    pub data: Vec<u8>,
    pub ack: Option<PieceAck>,
}

/// The accepting side's transfer, in state `S`.
pub struct Exchange<S: ExchangeState> {
    pub state: S,
}

impl Exchange<Ready> {
    /// Whether every file of the package has been received.
    pub fn is_done(&self) -> (r: bool)
        requires
            self.state.wf(),
        ensures
            r == (self.state.pending().len() == 0),
    {
        let cached = match &self.state.ack.files {
            Some(v) => v.len() == 0,
            None => false,
        };
        cached || self.state.next_file >= self.state.mypkg.files.len()
    }

    /// Answers the piece exchange `msg` for the next file of the package, and
    /// starts receiving its pieces in the window that `msg` announces.
    pub fn exchange(self, msg: MessageType) -> (r: Result<
        (Exchange<Running>, PieceExchangeAck),
        ProtocolError,
    >)
        requires
            self.state.wf(),
            self.state.pending().len() > 0,
        ensures
            match msg {
                MessageType::PieceExchange(pe) => {
                    &&& r.is_ok()
                    &&& r.unwrap().1.pieces.is_none()
                    &&& r.unwrap().0.state.pieces == pe.pieces
                    &&& r.unwrap().0.state.file == self.state.pending()[0]
                    &&& r.unwrap().0.contiguous() == 0
                    &&& r.unwrap().0.received() == 0
                    &&& r.unwrap().0.state.last_state.wf()
                    &&& r.unwrap().0.state.last_state.pending() == self.state.pending().drop_first()
                    &&& r.unwrap().0.state.last_state.mypkg == self.state.mypkg
                    &&& r.unwrap().0.state.last_state.ack == self.state.ack
                    &&& r.unwrap().0.state.last_state.peers == self.state.peers
                },
                _ => r == Err::<(Exchange<Running>, PieceExchangeAck), ProtocolError>(
                    ProtocolError::UnexpectedMessage {
                        expected: code_of(MessageKind::PieceExchange),
                        found: code_of(kind_of(msg)),
                    },
                ),
            },
    {
        let found = msg.message_type();
        let pe = match msg {
            MessageType::PieceExchange(pe) => pe,
            _ => {
                return Err(ProtocolError::UnexpectedMessage { expected: 60, found });
            },
        };
        assert(!is_cached_ack(self.state.ack));
        assert(self.state.next_file < self.state.mypkg.files@.len());
        let file = self.state.mypkg.files[self.state.next_file].clone();
        let count = self.state.mypkg.files.len();
        assert(self.state.next_file < count);
        let next: usize = self.state.next_file + 1;
        let Ready { peers, mypkg, ack, next_file: _ } = self.state;
        let last_state = Ready { peers, mypkg, ack, next_file: next };
        assert(last_state.pending() =~= self.state.pending().drop_first());
        let running = Running { pieces: pe.pieces, file, last_state, contiguous: 0, received: 0 };
        Ok((Exchange { state: running }, PieceExchangeAck { pieces: None }))
    }
}

impl Exchange<Running> {
    /// The last piece up to which pieces arrived in order.
    pub open spec fn contiguous(&self) -> u64 {
        self.state.contiguous
    }

    /// Number of pieces received so far.
    pub open spec fn received(&self) -> nat {
        self.state.received as nat
    }

    /// Whether as many pieces as the window holds have arrived.
    pub fn is_complete(&self) -> (r: bool)
        ensures
            r == (self.received() >= window_len(self.state.pieces)),
    {
        let start = self.state.pieces[0];
        let end = self.state.pieces[1];
        if end < start {
            true
        } else {
            self.state.received >= end - start
        }
    }

    /// The last piece up to which pieces arrived in order.
    pub fn contiguous_piece(&self) -> (r: u64)
        ensures
            r == self.contiguous(),
    {
        self.state.contiguous
    }

    /// Where the file is stored: `data/<package digest>/<filename>`.
    pub fn destination(&self) -> (r: String)
        ensures
            r@ == destination_of(self.state.last_state.mypkg.md5sum@, self.state.file.path@),
    {
        proof {
            reveal_strlit("data/");
            reveal_strlit("/");
        }
        let filename = self.state.file.filename();
        let dir = "data/".to_owned();
        let path = dir.concat(self.state.last_state.mypkg.md5sum.as_str());
        let path = path.concat("/");
        let path = path.concat(filename.as_str());
        assert(path@ =~= destination_of(
            self.state.last_state.mypkg.md5sum@,
            self.state.file.path@,
        ));
        path
    }

    /// Takes in the piece `msg`: it must lie in the window. Returns where to
    /// write it, and the acknowledgement to send where the piece asks for one.
    pub fn receive(&mut self, msg: MessageType) -> (r: Result<PieceWrite, ProtocolError>)
        requires
            old(self).received() < window_len(old(self).state.pieces),
        ensures
            final(self).state.pieces == old(self).state.pieces,
            final(self).state.file == old(self).state.file,
            final(self).state.last_state == old(self).state.last_state,
            match msg {
                MessageType::Piece(p) => if p.piece < old(self).state.pieces[0] || p.piece
                    >= old(self).state.pieces[1] {
                    &&& r == Err::<PieceWrite, ProtocolError>(
                        ProtocolError::PieceOutOfBounds {
                            piece: p.piece,
                            start: old(self).state.pieces[0],
                            end: old(self).state.pieces[1],
                        },
                    )
                    &&& final(self).contiguous() == old(self).contiguous()
                    &&& final(self).received() == old(self).received()
                } else if block_offset_of(p.piece) > u64::MAX {
                    &&& r == Err::<PieceWrite, ProtocolError>(ProtocolError::IoError)
                    &&& final(self).contiguous() == old(self).contiguous()
                    &&& final(self).received() == old(self).received()
                } else {
                    &&& r.is_ok()
                    &&& r.unwrap().offset == block_offset_of(p.piece)
                    &&& r.unwrap().data == p.data
                    &&& final(self).contiguous() == next_contiguous(old(self).contiguous(), p.piece)
                    &&& final(self).received() == old(self).received() + 1
                    &&& r.unwrap().ack == if p.ack.is_some() {
                        Some(PieceAck { piece: final(self).contiguous() })
                    } else {
                        None
                    }
                },
                _ => {
                    &&& r == Err::<PieceWrite, ProtocolError>(
                        ProtocolError::UnexpectedMessage {
                            expected: code_of(MessageKind::Piece),
                            found: code_of(kind_of(msg)),
                        },
                    )
                    &&& final(self).contiguous() == old(self).contiguous()
                    &&& final(self).received() == old(self).received()
                },
            },
    {
        let found = msg.message_type();
        let p = match msg {
            MessageType::Piece(p) => p,
            _ => {
                return Err(ProtocolError::UnexpectedMessage { expected: 80, found });
            },
        };
        let start = self.state.pieces[0];
        let end = self.state.pieces[1];
        if p.piece < start || p.piece >= end {
            return Err(ProtocolError::PieceOutOfBounds { piece: p.piece, start, end });
        }
        let offset = match block_offset(p.piece) {
            Some(o) => o,
            None => {
                return Err(ProtocolError::IoError);
            },
        };
        if p.piece == 0 || p.piece - 1 == self.state.contiguous {
            self.state.contiguous = p.piece;
        }
        self.state.received = self.state.received + 1;
        let ack = match p.ack {
            Some(_) => Some(PieceAck { piece: self.state.contiguous }),
            None => None,
        };
        Ok(PieceWrite { offset, data: p.data, ack })
    }

    /// Ends the file; the next piece exchange may follow.
    pub fn finish(self) -> (r: Exchange<Ready>)
        ensures
            r.state == self.state.last_state,
    {
        Exchange { state: self.state.last_state }
    }
}

/// Block `i` of content `c`: its bytes `[i * BLOCK_SIZE, (i + 1) * BLOCK_SIZE)`,
/// cut at the end of `c`.
pub open spec fn block_of(c: Seq<u8>, i: nat) -> Seq<u8> {
    let lo = if i * BLOCK_SIZE <= c.len() { i * BLOCK_SIZE } else { c.len() as int };
    let hi = if (i + 1) * BLOCK_SIZE <= c.len() { (i + 1) * BLOCK_SIZE } else { c.len() as int };
    c.subrange(lo, hi)
}

/// A file's content after `data` is written at byte `offset`: bytes before
/// it are kept (zeros fill a gap past the end), bytes after it are kept.
pub open spec fn write_at(f: Seq<u8>, offset: int, data: Seq<u8>) -> Seq<u8> {
    let head = if offset <= f.len() {
        f.take(offset)
    } else {
        f + Seq::new((offset - f.len()) as nat, |_i: int| 0u8)
    };
    let end = offset + data.len();
    head + data + if end < f.len() {
        f.skip(end)
    } else {
        Seq::empty()
    }
}

/// An empty file after blocks `0..k` of `c` were written in order, each at
/// the offset of its piece.
pub open spec fn written_blocks(c: Seq<u8>, k: nat) -> Seq<u8>
    decreases k,
{
    if k == 0 {
        Seq::empty()
    } else {
        write_at(
            written_blocks(c, (k - 1) as nat),
            (k - 1) * BLOCK_SIZE,
            block_of(c, (k - 1) as nat),
        )
    }
}

/// The first `k` blocks of `c`, written in order, hold its first bytes.
proof fn lemma_written_prefix(c: Seq<u8>, k: nat)
    requires
        k <= chunk_count_of(c.len()),
    ensures
        written_blocks(c, k) == c.take(
            if k * BLOCK_SIZE <= c.len() { k * BLOCK_SIZE } else { c.len() as int },
        ),
    decreases k,
{
    let b = BLOCK_SIZE as int;
    let len = c.len() as int;
    if k == 0 {
        assert(c.take(0) =~= Seq::<u8>::empty());
    } else {
        let j = (k - 1) as nat;
        lemma_written_prefix(c, j);
        assert(j * b <= len) by {
            if len > 0 {
                let x = len + b - 1;
                vstd::arithmetic::div_mod::lemma_fundamental_div_mod(x, b);
                vstd::arithmetic::div_mod::lemma_mod_pos_bound(x, b);
                let n = x / b;
                assert(j <= n - 1);
                assert(j * b <= (n - 1) * b) by (nonlinear_arith)
                    requires
                        j <= n - 1,
                        b > 0,
                ;
            }
        }
        let hi = if k * b <= len { k * b } else { len };
        assert(written_blocks(c, k) =~= c.take(hi));
    }
}

/// File round trip: writing each block of a content `c` at the offset of its
/// piece, in increasing order, into an empty file rebuilds `c` exactly; so
/// the stored file has the digest of `c`.
pub proof fn file_round_trip(c: Seq<u8>)
    ensures
        written_blocks(c, chunk_count_of(c.len())) == c,
{
    let b = BLOCK_SIZE as int;
    let len = c.len() as int;
    let n = chunk_count_of(c.len());
    lemma_written_prefix(c, n);
    assert(n * b >= len) by {
        if len > 0 {
            let x = len + b - 1;
            vstd::arithmetic::div_mod::lemma_fundamental_div_mod(x, b);
            vstd::arithmetic::div_mod::lemma_mod_pos_bound(x, b);
            assert(n * b == b * (x / b)) by (nonlinear_arith)
                requires
                    n == x / b,
            ;
        }
    }
    assert(c.take(len) =~= c);
}

} // verus!
