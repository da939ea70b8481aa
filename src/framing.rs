//! Framing of messages on an ordered byte stream.
//!
//! A payload is cut into frames of at most `BLOCK_SIZE_LESS_HEADER` bytes,
//! each behind a header of its length and its message type (both big-endian
//! `u16`). The frame shorter than `BLOCK_SIZE_LESS_HEADER` ends the message,
//! so a payload whose length is a multiple of it ends with an empty frame.
use vstd::prelude::*;
use crate::error::ProtocolError;
use crate::protocol::{
    code_of, valid_message_type, MessageKind, BLOCK_SIZE_LESS_HEADER, HEADER_SIZE,
};

verus! {

/// The two big-endian bytes of `n`.
pub open spec fn be16(n: u16) -> Seq<u8> {
    seq![(n / 256) as u8, (n % 256) as u8]
}

/// The `u16` whose big-endian bytes are `hi`, `lo`.
pub open spec fn be16_value(hi: u8, lo: u8) -> u16 {
    (hi as int * 256 + lo as int) as u16
}

/// One frame: the payload's length, the type code, the payload.
pub open spec fn frame_bytes(t: u16, chunk: Seq<u8>) -> Seq<u8> {
    be16(chunk.len() as u16) + be16(t) + chunk
}

/// The length a frame's header announces.
pub open spec fn frame_length(f: Seq<u8>) -> u16 {
    be16_value(f[0], f[1])
}

/// The type code a frame's header carries.
pub open spec fn frame_type(f: Seq<u8>) -> u16 {
    be16_value(f[2], f[3])
}

/// The frames that carry payload `p` as a message of type `t`, in order.
pub open spec fn frames_of(t: u16, p: Seq<u8>) -> Seq<Seq<u8>>
    decreases p.len(),
{
    if p.len() < BLOCK_SIZE_LESS_HEADER {
        seq![frame_bytes(t, p)]
    } else {
        seq![frame_bytes(t, p.take(BLOCK_SIZE_LESS_HEADER as int))] + frames_of(
            t,
            p.skip(BLOCK_SIZE_LESS_HEADER as int),
        )
    }
}

/// The bytes on the wire for payload `p` as a message of type `t`.
pub open spec fn wire_of(t: u16, p: Seq<u8>) -> Seq<u8> {
    frames_of(t, p).flatten()
}

/// A frame header as read from the wire.
#[derive(Clone, Copy, Debug, PartialEq, Eq, Structural)]
pub struct FrameHeader {
    /// Payload bytes that follow the header.
    pub length: u16,
    /// Type code of the message the frame belongs to.
    pub message_type: u16,
}

/// The header in the first four bytes of `h`, checked against the type of the
/// earlier frames of the same message, if there were any.
pub open spec fn check_header(expected: Option<u16>, h: Seq<u8>) -> Result<
    FrameHeader,
    ProtocolError,
> {
    let length = be16_value(h[0], h[1]);
    let message_type = be16_value(h[2], h[3]);
    if length > BLOCK_SIZE_LESS_HEADER {
        Err(ProtocolError::InvalidFrame { length })
    } else if !valid_message_type(message_type) {
        Err(ProtocolError::InvalidMessageType { message_type })
    } else if expected.is_some() && expected.unwrap() != message_type {
        Err(ProtocolError::FrameTypeMismatch { expected: expected.unwrap(), found: message_type })
    } else {
        Ok(FrameHeader { length, message_type })
    }
}

/// `r` with `k` more bytes consumed.
pub open spec fn shifted(r: Result<(u16, Seq<u8>, int), ProtocolError>, k: int) -> Result<
    (u16, Seq<u8>, int),
    ProtocolError,
> {
    match r {
        Ok((t, p, n)) => Ok((t, p, n + k)),
        Err(e) => Err(e),
    }
}

/// Reading one message from the start of `w`, where `expected` is the type of
/// its frames read so far and `acc` their payload: the message's type, its
/// whole payload and the bytes of `w` consumed; or why it failed.
pub open spec fn read_frames(w: Seq<u8>, expected: Option<u16>, acc: Seq<u8>) -> Result<
    (u16, Seq<u8>, int),
    ProtocolError,
>
    decreases w.len(),
{
    if w.len() < HEADER_SIZE {
        Err(ProtocolError::TransportClosed)
    } else {
        match check_header(expected, w) {
            Err(e) => Err(e),
            Ok(h) => {
                let end = HEADER_SIZE + h.length;
                if w.len() < end {
                    Err(ProtocolError::TransportClosed)
                } else if h.length < BLOCK_SIZE_LESS_HEADER {
                    Ok((h.message_type, acc + w.subrange(HEADER_SIZE as int, end), end))
                } else {
                    shifted(
                        read_frames(
                            w.skip(end),
                            Some(h.message_type),
                            acc + w.subrange(HEADER_SIZE as int, end),
                        ),
                        end,
                    )
                }
            }
        }
    }
}

/// Reading one message from the start of `w`.
pub open spec fn read_message(w: Seq<u8>) -> Result<(u16, Seq<u8>, int), ProtocolError> {
    read_frames(w, None, Seq::empty())
}

/// A whole message as read from the wire: its type code and payload.
#[derive(Debug, PartialEq, Eq)]
pub struct ReadResult {
    pub message_type: u16,
    pub raw_msg: Vec<u8>,
}

/// The views of a list of byte vectors.
pub open spec fn views(v: Seq<Vec<u8>>) -> Seq<Seq<u8>> {
    v.map_values(|b: Vec<u8>| b@)
}

/// The frame carrying `payload[from..to]` as part of a message of type `t`.
fn make_frame(t: u16, payload: &[u8], from: usize, to: usize) -> (r: Vec<u8>)
    requires
        from <= to <= payload@.len(),
        to - from <= BLOCK_SIZE_LESS_HEADER,
    ensures
        r@ == frame_bytes(t, payload@.subrange(from as int, to as int)),
{
    let n: u16 = (to - from) as u16;
    let mut f: Vec<u8> = Vec::new();
    f.push((n / 256) as u8);
    f.push((n % 256) as u8);
    f.push((t / 256) as u8);
    f.push((t % 256) as u8);
    let ghost head = f@;
    assert(head =~= be16(n) + be16(t));
    let mut i: usize = from;
    while i < to
        invariant
            from <= i <= to <= payload@.len(),
            f@ == head + payload@.subrange(from as int, i as int),
        decreases to - i,
    {
        f.push(payload[i]);
        i = i + 1;
        assert(f@ =~= head + payload@.subrange(from as int, i as int));
    }
    f
}

/// The frames of `payload` sent as a message of kind `kind`, in the order
/// they go on the wire.
pub fn encode_frames(kind: MessageKind, payload: &[u8]) -> (r: Vec<Vec<u8>>)
    ensures
        views(r@) == frames_of(code_of(kind), payload@),
{
    let t = kind.code();
    let mut out: Vec<Vec<u8>> = Vec::new();
    let mut pos: usize = 0;
    assert(payload@.skip(0) =~= payload@);
    assert(views(out@) + frames_of(t, payload@.skip(0)) =~= frames_of(t, payload@));
    loop
        invariant
            pos <= payload@.len(),
            t == code_of(kind),
            views(out@) + frames_of(t, payload@.skip(pos as int)) == frames_of(t, payload@),
        decreases payload@.len() - pos,
    {
        let rest: usize = payload.len() - pos;
        let ghost tail = payload@.skip(pos as int);
        if rest < BLOCK_SIZE_LESS_HEADER {
            let f = make_frame(t, payload, pos, payload.len());
            assert(payload@.subrange(pos as int, payload@.len() as int) =~= tail);
            let ghost before = views(out@);
            out.push(f);
            assert(views(out@) =~= before.push(f@));
            assert(frames_of(t, tail) == seq![frame_bytes(t, tail)]);
            assert(views(out@) =~= before + frames_of(t, tail));
            return out;
        }
        let f = make_frame(t, payload, pos, pos + BLOCK_SIZE_LESS_HEADER);
        assert(payload@.subrange(pos as int, pos + BLOCK_SIZE_LESS_HEADER) =~= tail.take(
            BLOCK_SIZE_LESS_HEADER as int,
        ));
        assert(tail.skip(BLOCK_SIZE_LESS_HEADER as int) =~= payload@.skip(
            pos + BLOCK_SIZE_LESS_HEADER,
        ));
        let ghost before = views(out@);
        out.push(f);
        assert(views(out@) =~= before.push(f@));
        pos = pos + BLOCK_SIZE_LESS_HEADER;
        assert(views(out@) + frames_of(t, payload@.skip(pos as int)) =~= before + frames_of(
            t,
            tail,
        ));
    }
}

/// Collects the frames of one message as they arrive.
pub struct FrameReader {
    /// Type of the frames read so far of the current message.
    pub message_type: Option<u16>,
    /// Payload read so far of the current message.
    pub raw_msg: Vec<u8>,
}

impl FrameReader {
    /// A reader at the start of a message.
    pub fn new() -> (r: FrameReader)
        ensures
            r.message_type.is_none(),
            r.raw_msg@.len() == 0,
    {
        FrameReader { message_type: None, raw_msg: Vec::new() }
    }

    /// Checks the header in the first four bytes of `hdr`: its length must fit
    /// a frame, its type must be known and must match the earlier frames.
    pub fn read_header(&self, hdr: &[u8]) -> (r: Result<FrameHeader, ProtocolError>)
        requires
            hdr@.len() >= HEADER_SIZE,
        ensures
            r == check_header(self.message_type, hdr@),
    {
        let length: u16 = (hdr[0] as u16) * 256 + hdr[1] as u16;
        let message_type: u16 = (hdr[2] as u16) * 256 + hdr[3] as u16;
        if length as usize > BLOCK_SIZE_LESS_HEADER {
            return Err(ProtocolError::InvalidFrame { length });
        }
        if !crate::protocol::MessageType::is_valid_message_type(message_type) {
            return Err(ProtocolError::InvalidMessageType { message_type });
        }
        match self.message_type {
            Some(expected) => {
                if expected != message_type {
                    return Err(ProtocolError::FrameTypeMismatch { expected, found: message_type });
                }
            },
            None => {},
        }
        Ok(FrameHeader { length, message_type })
    }

    /// Takes in the payload of a frame whose header `read_header` accepted.
    /// Returns the whole message after its last frame, and then starts afresh.
    pub fn push(&mut self, header: FrameHeader, payload: &[u8]) -> (r: Option<ReadResult>)
        requires
            header.length <= BLOCK_SIZE_LESS_HEADER,
            payload@.len() == header.length,
            old(self).raw_msg@.len() + payload@.len() <= usize::MAX,
        ensures
            header.length < BLOCK_SIZE_LESS_HEADER ==> {
                &&& r.is_some()
                &&& r.unwrap().message_type == header.message_type
                &&& r.unwrap().raw_msg@ == old(self).raw_msg@ + payload@
                &&& final(self).message_type.is_none()
                &&& final(self).raw_msg@.len() == 0
            },
            header.length == BLOCK_SIZE_LESS_HEADER ==> {
                &&& r.is_none()
                &&& final(self).message_type == Some(header.message_type)
                &&& final(self).raw_msg@ == old(self).raw_msg@ + payload@
            },
    {
        let mut i: usize = 0;
        let ghost before = self.raw_msg@;
        while i < payload.len()
            invariant
                i <= payload@.len(),
                before.len() + payload@.len() <= usize::MAX,
                self.raw_msg@ == before + payload@.take(i as int),
            decreases payload@.len() - i,
        {
            self.raw_msg.push(payload[i]);
            i = i + 1;
            assert(self.raw_msg@ =~= before + payload@.take(i as int));
        }
        assert(payload@.take(i as int) =~= payload@);
        if (header.length as usize) < BLOCK_SIZE_LESS_HEADER {
            let raw_msg = self.raw_msg.split_off(0);
            self.message_type = None;
            Some(ReadResult { message_type: header.message_type, raw_msg })
        } else {
            self.message_type = Some(header.message_type);
            None
        }
    }
}

/// Reads one message from the start of `wire`: its type and payload, and how
/// many bytes of `wire` its frames took.
pub fn decode_frames(wire: &[u8]) -> (r: Result<(ReadResult, usize), ProtocolError>)
    ensures
        match read_message(wire@) {
            Ok((t, p, n)) => r.is_ok() && r.unwrap().0.message_type == t && r.unwrap().0.raw_msg@
                == p && r.unwrap().1 == n,
            Err(e) => r == Err::<(ReadResult, usize), ProtocolError>(e),
        },
{
    let mut reader = FrameReader::new();
    let mut pos: usize = 0;
    assert(wire@.skip(0) =~= wire@);
    assert(reader.raw_msg@ =~= Seq::<u8>::empty());
    loop
        invariant
            pos <= wire@.len(),
            reader.raw_msg@.len() <= pos,
            read_message(wire@) == shifted(
                read_frames(wire@.skip(pos as int), reader.message_type, reader.raw_msg@),
                pos as int,
            ),
        decreases wire@.len() - pos,
    {
        let ghost w = wire@.skip(pos as int);
        if wire.len() - pos < HEADER_SIZE {
            return Err(ProtocolError::TransportClosed);
        }
        let hdr = &wire[pos..pos + HEADER_SIZE];
        assert(hdr@[0] == w[0] && hdr@[1] == w[1] && hdr@[2] == w[2] && hdr@[3] == w[3]);
        assert(check_header(reader.message_type, hdr@) == check_header(reader.message_type, w));
        let header = match reader.read_header(hdr) {
            Ok(h) => h,
            Err(e) => {
                return Err(e);
            },
        };
        let len: usize = header.length as usize;
        if wire.len() - pos - HEADER_SIZE < len {
            return Err(ProtocolError::TransportClosed);
        }
        let start: usize = pos + HEADER_SIZE;
        let payload = &wire[start..start + len];
        assert(payload@ =~= w.subrange(HEADER_SIZE as int, HEADER_SIZE + len));
        match reader.push(header, payload) {
            Some(res) => {
                return Ok((res, start + len));
            },
            None => {
                assert(w.skip(HEADER_SIZE + len) =~= wire@.skip(start + len));
                pos = start + len;
            },
        }
    }
}

/// Big-endian bytes read back give the number they encode.
proof fn lemma_be16(n: u16)
    ensures
        be16(n).len() == 2,
        be16_value(be16(n)[0], be16(n)[1]) == n,
{
    assert((n / 256) < 256);
    assert(((n / 256) as u8) as int == n / 256);
    assert(((n % 256) as u8) as int == n % 256);
    assert((n / 256) * 256 + n % 256 == n) by (nonlinear_arith);
}

/// The header of a frame announces its payload's length and its type.
proof fn lemma_frame_header(t: u16, chunk: Seq<u8>)
    requires
        chunk.len() <= BLOCK_SIZE_LESS_HEADER,
    ensures
        frame_bytes(t, chunk).len() == HEADER_SIZE + chunk.len(),
        frame_length(frame_bytes(t, chunk)) == chunk.len(),
        frame_type(frame_bytes(t, chunk)) == t,
        frame_bytes(t, chunk).subrange(HEADER_SIZE as int, HEADER_SIZE + chunk.len()) == chunk,
{
    let f = frame_bytes(t, chunk);
    lemma_be16(chunk.len() as u16);
    lemma_be16(t);
    assert(f[0] == be16(chunk.len() as u16)[0]);
    assert(f[1] == be16(chunk.len() as u16)[1]);
    assert(f[2] == be16(t)[0]);
    assert(f[3] == be16(t)[1]);
    assert(f.subrange(HEADER_SIZE as int, HEADER_SIZE + chunk.len()) =~= chunk);
}

/// The wire bytes of a payload of at least a full frame: the full first
/// frame, then the wire bytes of the rest.
proof fn lemma_wire_unfold(t: u16, p: Seq<u8>)
    ensures
        p.len() < BLOCK_SIZE_LESS_HEADER ==> wire_of(t, p) == frame_bytes(t, p),
        p.len() >= BLOCK_SIZE_LESS_HEADER ==> wire_of(t, p) == frame_bytes(
            t,
            p.take(BLOCK_SIZE_LESS_HEADER as int),
        ) + wire_of(t, p.skip(BLOCK_SIZE_LESS_HEADER as int)),
{
    let fs = frames_of(t, p);
    if p.len() < BLOCK_SIZE_LESS_HEADER {
        fs.lemma_flatten_one_element();
    } else {
        assert(fs.drop_first() =~= frames_of(t, p.skip(BLOCK_SIZE_LESS_HEADER as int)));
    }
}

/// Reading the frames of `p` back, after earlier frames of the same type,
/// gives `p` after what those held, and consumes exactly those frames.
proof fn lemma_read_frames_of(
    t: u16,
    p: Seq<u8>,
    rest: Seq<u8>,
    expected: Option<u16>,
    acc: Seq<u8>,
)
    requires
        valid_message_type(t),
        expected.is_none() || expected == Some(t),
    ensures
        read_frames(wire_of(t, p) + rest, expected, acc) == Ok::<
            (u16, Seq<u8>, int),
            ProtocolError,
        >((t, acc + p, wire_of(t, p).len() as int)),
    decreases p.len(),
{
    let w = wire_of(t, p) + rest;
    lemma_wire_unfold(t, p);
    if p.len() < BLOCK_SIZE_LESS_HEADER {
        lemma_frame_header(t, p);
        let f = frame_bytes(t, p);
        assert(w[0] == f[0] && w[1] == f[1] && w[2] == f[2] && w[3] == f[3]);
        assert(w.subrange(HEADER_SIZE as int, HEADER_SIZE + p.len()) =~= p);
    } else {
        let head = p.take(BLOCK_SIZE_LESS_HEADER as int);
        let tail = p.skip(BLOCK_SIZE_LESS_HEADER as int);
        lemma_frame_header(t, head);
        let f = frame_bytes(t, head);
        assert(w[0] == f[0] && w[1] == f[1] && w[2] == f[2] && w[3] == f[3]);
        assert(w.subrange(HEADER_SIZE as int, HEADER_SIZE + BLOCK_SIZE_LESS_HEADER) =~= head);
        assert(w.skip(HEADER_SIZE + BLOCK_SIZE_LESS_HEADER) =~= wire_of(t, tail) + rest);
        lemma_read_frames_of(t, tail, rest, Some(t), acc + head);
        assert(acc + head + tail =~= acc + p);
    }
}

/// Framing round trip: reading back the frames written for payload `p` as
/// a message of type `t`, followed by anything else, gives `t` and `p`, and
/// consumes exactly those frames.
pub proof fn framing_round_trip(t: u16, p: Seq<u8>, rest: Seq<u8>)
    requires
        valid_message_type(t),
    ensures
        read_message(wire_of(t, p) + rest) == Ok::<(u16, Seq<u8>, int), ProtocolError>(
            (t, p, wire_of(t, p).len() as int),
        ),
{
    lemma_read_frames_of(t, p, rest, None, Seq::empty());
    assert(Seq::<u8>::empty() + p =~= p);
}

/// Segmentation: a payload of `N` bytes goes in `N / BLOCK_SIZE_LESS_HEADER + 1`
/// frames, the last of which carries `N % BLOCK_SIZE_LESS_HEADER` bytes.
pub proof fn segmentation(t: u16, p: Seq<u8>)
    ensures
        frames_of(t, p).len() == p.len() as int / (BLOCK_SIZE_LESS_HEADER as int) + 1,
        frame_length(frames_of(t, p).last()) == p.len() as int % (BLOCK_SIZE_LESS_HEADER as int),
    decreases p.len(),
{
    if p.len() < BLOCK_SIZE_LESS_HEADER {
        lemma_frame_header(t, p);
    } else {
        let tail = p.skip(BLOCK_SIZE_LESS_HEADER as int);
        segmentation(t, tail);
        let l = BLOCK_SIZE_LESS_HEADER as int;
        let n = p.len() as int;
        assert((n - l) / l == n / l - 1) by {
            vstd::arithmetic::div_mod::lemma_div_minus_one(n, l);
        }
        assert((n - l) % l == n % l) by {
            vstd::arithmetic::div_mod::lemma_mod_sub_multiples_vanish(n, l);
        }
        assert(frames_of(t, p).last() == frames_of(t, tail).last());
    }
}

/// Frame bounds: every frame announces at most `BLOCK_SIZE_LESS_HEADER`
/// payload bytes and carries exactly that many after its header; every frame
/// but the last is full.
pub proof fn frame_bounds(t: u16, p: Seq<u8>)
    ensures
        forall|i: int|
            0 <= i < frames_of(t, p).len() ==> {
                &&& frame_length(#[trigger] frames_of(t, p)[i]) <= BLOCK_SIZE_LESS_HEADER
                &&& frames_of(t, p)[i].len() == HEADER_SIZE + frame_length(frames_of(t, p)[i])
                &&& i + 1 < frames_of(t, p).len() ==> frame_length(frames_of(t, p)[i])
                    == BLOCK_SIZE_LESS_HEADER
            },
    decreases p.len(),
{
    if p.len() < BLOCK_SIZE_LESS_HEADER {
        lemma_frame_header(t, p);
    } else {
        let tail = p.skip(BLOCK_SIZE_LESS_HEADER as int);
        frame_bounds(t, tail);
        lemma_frame_header(t, p.take(BLOCK_SIZE_LESS_HEADER as int));
        assert forall|i: int| 0 < i < frames_of(t, p).len() implies frames_of(t, p)[i]
            == frames_of(t, tail)[i - 1] by {}
    }
}

/// Type validity: every frame of a message carries the type code of the
/// message's kind, which is one of the protocol's codes.
pub proof fn frame_types(kind: MessageKind, p: Seq<u8>)
    ensures
        forall|i: int|
            0 <= i < frames_of(code_of(kind), p).len() ==> frame_type(
                #[trigger] frames_of(code_of(kind), p)[i],
            ) == code_of(kind) && valid_message_type(frame_type(frames_of(code_of(kind), p)[i])),
    decreases p.len(),
{
    let t = code_of(kind);
    if p.len() < BLOCK_SIZE_LESS_HEADER {
        lemma_frame_header(t, p);
    } else {
        let tail = p.skip(BLOCK_SIZE_LESS_HEADER as int);
        frame_types(kind, tail);
        lemma_frame_header(t, p.take(BLOCK_SIZE_LESS_HEADER as int));
        assert forall|i: int| 0 < i < frames_of(t, p).len() implies frames_of(t, p)[i]
            == frames_of(t, tail)[i - 1] by {}
    }
}

} // verus!
