//! The message codec: protocol messages to and from a length-delimited
//! binary wire form. Every message is framed as one length byte followed by
//! exactly that many body bytes, so a receiver never has to read blindly
//! into the middle of a message.

use vstd::prelude::*;

use crate::piece::PieceType;

verus! {

/// The payload of a Move message. Squares use the `rank * 8 + file`
/// encoding, 0 to 63.
#[derive(Clone, Copy, Debug, PartialEq, Eq)]
pub struct MoveWire {
    pub from_square: u8,
    pub to_square: u8,
    pub promotion: Option<PieceType>,
}

impl MoveWire {
    /// Both squares are on the board.
    pub open spec fn wf(self) -> bool {
        self.from_square < 64 && self.to_square < 64
    }
}

/// Messages a client sends to the host.
#[derive(Clone, Copy, Debug, PartialEq, Eq)]
pub enum C2sMessage {
    ConnectRequest,
    Move(MoveWire),
}

impl C2sMessage {
    /// The message carries only on-board squares.
    pub open spec fn wf(self) -> bool {
        match self {
            C2sMessage::ConnectRequest => true,
            C2sMessage::Move(w) => w.wf(),
        }
    }
}

/// Messages the host sends to a client.
#[derive(Clone, Copy, Debug, PartialEq, Eq)]
pub enum S2cMessage {
    ConnectAck,
    Move(MoveWire),
    MoveAck,
}

impl S2cMessage {
    /// The message carries only on-board squares.
    pub open spec fn wf(self) -> bool {
        match self {
            S2cMessage::ConnectAck => true,
            S2cMessage::Move(w) => w.wf(),
            S2cMessage::MoveAck => true,
        }
    }
}

/// The byte encoding an optional promotion piece: 0 for none, 1 to 6 for
/// the six piece kinds.
pub open spec fn promo_byte(p: Option<PieceType>) -> u8 {
    match p {
        None => 0,
        Some(PieceType::Pawn) => 1,
        Some(PieceType::Knight) => 2,
        Some(PieceType::Bishop) => 3,
        Some(PieceType::Rook) => 4,
        Some(PieceType::Queen) => 5,
        Some(PieceType::King) => 6,
    }
}

/// The optional promotion piece a byte decodes to; bytes above 6 decode to
/// nothing.
pub open spec fn byte_promo(x: u8) -> Option<Option<PieceType>> {
    if x == 0 {
        Some(None)
    } else if x == 1 {
        Some(Some(PieceType::Pawn))
    } else if x == 2 {
        Some(Some(PieceType::Knight))
    } else if x == 3 {
        Some(Some(PieceType::Bishop))
    } else if x == 4 {
        Some(Some(PieceType::Rook))
    } else if x == 5 {
        Some(Some(PieceType::Queen))
    } else if x == 6 {
        Some(Some(PieceType::King))
    } else {
        None
    }
}

/// The body bytes of a client message: a tag byte, then the Move fields.
pub open spec fn c2s_body(m: C2sMessage) -> Seq<u8> {
    match m {
        C2sMessage::ConnectRequest => seq![0u8],
        C2sMessage::Move(w) => seq![1u8, w.from_square, w.to_square, promo_byte(w.promotion)],
    }
}

/// The body bytes of a host message: a tag byte, then the Move fields.
pub open spec fn s2c_body(m: S2cMessage) -> Seq<u8> {
    match m {
        S2cMessage::ConnectAck => seq![0u8],
        S2cMessage::Move(w) => seq![1u8, w.from_square, w.to_square, promo_byte(w.promotion)],
        S2cMessage::MoveAck => seq![2u8],
    }
}

/// A framed body: its length as one byte, then exactly the body.
pub open spec fn framed(body: Seq<u8>) -> Seq<u8>
    recommends
        body.len() <= 255,
{
    seq![body.len() as u8] + body
}

/// The client message a body decodes to: exactly the encodings of
/// well-formed messages decode, everything else is malformed.
pub open spec fn parse_c2s(body: Seq<u8>) -> Option<C2sMessage> {
    if body.len() == 1 && body[0] == 0 {
        Some(C2sMessage::ConnectRequest)
    } else if body.len() == 4 && body[0] == 1 && body[1] < 64 && body[2] < 64 && byte_promo(
        body[3],
    ) is Some {
        Some(
            C2sMessage::Move(
                MoveWire {
                    from_square: body[1],
                    to_square: body[2],
                    promotion: byte_promo(body[3])->0,
                },
            ),
        )
    } else {
        None
    }
}

/// The host message a body decodes to.
pub open spec fn parse_s2c(body: Seq<u8>) -> Option<S2cMessage> {
    if body.len() == 1 && body[0] == 0 {
        Some(S2cMessage::ConnectAck)
    } else if body.len() == 1 && body[0] == 2 {
        Some(S2cMessage::MoveAck)
    } else if body.len() == 4 && body[0] == 1 && body[1] < 64 && body[2] < 64 && byte_promo(
        body[3],
    ) is Some {
        Some(
            S2cMessage::Move(
                MoveWire {
                    from_square: body[1],
                    to_square: body[2],
                    promotion: byte_promo(body[3])->0,
                },
            ),
        )
    } else {
        None
    }
}

/// One frame split off the front of a receive buffer: the body named by the
/// length byte, and the remainder of the stream. Nothing is split off
/// until the whole frame has arrived, so a poll never stops mid-message.
pub open spec fn take_frame(buf: Seq<u8>) -> Option<(Seq<u8>, Seq<u8>)> {
    if buf.len() >= 1 && buf.len() >= 1 + buf[0] {
        Some(
            (buf.subrange(1, 1 + buf[0]), buf.subrange(1 + buf[0], buf.len() as int)),
        )
    } else {
        None
    }
}

/// Law: a framed body, however much of the rest of the stream follows it,
/// is split off whole and leaves exactly that rest.
pub proof fn lemma_frame_round_trip(body: Seq<u8>, rest: Seq<u8>)
    requires
        body.len() <= 255,
    ensures
        take_frame(framed(body) + rest) matches Some(pair) && pair.0 == body && pair.1 == rest,
{
    let buf = framed(body) + rest;
    assert(buf[0] == body.len() as u8);
    assert(buf.subrange(1, 1 + body.len() as int) =~= body);
    assert(buf.subrange(1 + body.len() as int, buf.len() as int) =~= rest);
}

/// Law: decoding the encoding of any well-formed client message yields the
/// identical message.
pub proof fn lemma_c2s_round_trip(m: C2sMessage)
    requires
        m.wf(),
    ensures
        parse_c2s(c2s_body(m)) == Some(m),
{
}

/// Law: decoding the encoding of any well-formed host message yields the
/// identical message.
pub proof fn lemma_s2c_round_trip(m: S2cMessage)
    requires
        m.wf(),
    ensures
        parse_s2c(s2c_body(m)) == Some(m),
{
}

/// Law: the full wire round trip. A well-formed client message, framed and
/// sent ahead of any further stream bytes, is unframed and decoded back to
/// the identical message with the stream left intact.
pub proof fn lemma_c2s_wire_round_trip(m: C2sMessage, rest: Seq<u8>)
    requires
        m.wf(),
    ensures
        take_frame(framed(c2s_body(m)) + rest) matches Some(pair) && parse_c2s(pair.0) == Some(m)
            && pair.1 == rest,
{
    lemma_frame_round_trip(c2s_body(m), rest);
    lemma_c2s_round_trip(m);
}

/// Law: the full wire round trip for host messages.
pub proof fn lemma_s2c_wire_round_trip(m: S2cMessage, rest: Seq<u8>)
    requires
        m.wf(),
    ensures
        take_frame(framed(s2c_body(m)) + rest) matches Some(pair) && parse_s2c(pair.0) == Some(m)
            && pair.1 == rest,
{
    lemma_frame_round_trip(s2c_body(m), rest);
    lemma_s2c_round_trip(m);
}

/// The byte encoding an optional promotion piece.
fn promo_byte_exec(p: Option<PieceType>) -> (x: u8)
    ensures
        x == promo_byte(p),
{
    match p {
        None => 0,
        Some(PieceType::Pawn) => 1,
        Some(PieceType::Knight) => 2,
        Some(PieceType::Bishop) => 3,
        Some(PieceType::Rook) => 4,
        Some(PieceType::Queen) => 5,
        Some(PieceType::King) => 6,
    }
}

/// The optional promotion piece a byte decodes to.
fn byte_promo_exec(x: u8) -> (p: Option<Option<PieceType>>)
    ensures
        p == byte_promo(x),
{
    if x == 0 {
        Some(None)
    } else if x == 1 {
        Some(Some(PieceType::Pawn))
    } else if x == 2 {
        Some(Some(PieceType::Knight))
    } else if x == 3 {
        Some(Some(PieceType::Bishop))
    } else if x == 4 {
        Some(Some(PieceType::Rook))
    } else if x == 5 {
        Some(Some(PieceType::Queen))
    } else if x == 6 {
        Some(Some(PieceType::King))
    } else {
        None
    }
}

/// Encodes a client message as one frame ready to be written to the stream.
pub fn encode_c2s(m: &C2sMessage) -> (out: Vec<u8>)
    ensures
        out@ == framed(c2s_body(*m)),
{
    let mut out: Vec<u8> = Vec::new();
    match m {
        C2sMessage::ConnectRequest => {
            out.push(1);
            out.push(0);
        },
        C2sMessage::Move(w) => {
            out.push(4);
            out.push(1);
            out.push(w.from_square);
            out.push(w.to_square);
            out.push(promo_byte_exec(w.promotion));
        },
    }
    proof {
        assert(out@ =~= framed(c2s_body(*m)));
    }
    out
}

/// Encodes a host message as one frame ready to be written to the stream.
pub fn encode_s2c(m: &S2cMessage) -> (out: Vec<u8>)
    ensures
        out@ == framed(s2c_body(*m)),
{
    let mut out: Vec<u8> = Vec::new();
    match m {
        S2cMessage::ConnectAck => {
            out.push(1);
            out.push(0);
        },
        S2cMessage::Move(w) => {
            out.push(4);
            out.push(1);
            out.push(w.from_square);
            out.push(w.to_square);
            out.push(promo_byte_exec(w.promotion));
        },
        S2cMessage::MoveAck => {
            out.push(1);
            out.push(2);
        },
    }
    proof {
        assert(out@ =~= framed(s2c_body(*m)));
    }
    out
}

/// Decodes one client-message body; `None` means the bytes are malformed.
pub fn decode_c2s(body: &Vec<u8>) -> (r: Option<C2sMessage>)
    ensures
        r == parse_c2s(body@),
{
    if body.len() == 1 && body[0] == 0 {
        Some(C2sMessage::ConnectRequest)
    } else if body.len() == 4 && body[0] == 1 && body[1] < 64 && body[2] < 64 {
        match byte_promo_exec(body[3]) {
            Some(promotion) => Some(
                C2sMessage::Move(
                    MoveWire { from_square: body[1], to_square: body[2], promotion },
                ),
            ),
            None => None,
        }
    } else {
        None
    }
}

/// Decodes one host-message body; `None` means the bytes are malformed.
pub fn decode_s2c(body: &Vec<u8>) -> (r: Option<S2cMessage>)
    ensures
        r == parse_s2c(body@),
{
    if body.len() == 1 && body[0] == 0 {
        Some(S2cMessage::ConnectAck)
    } else if body.len() == 1 && body[0] == 2 {
        Some(S2cMessage::MoveAck)
    } else if body.len() == 4 && body[0] == 1 && body[1] < 64 && body[2] < 64 {
        match byte_promo_exec(body[3]) {
            Some(promotion) => Some(
                S2cMessage::Move(
                    MoveWire { from_square: body[1], to_square: body[2], promotion },
                ),
            ),
            None => None,
        }
    } else {
        None
    }
}

/// Removes one complete frame from the front of a receive buffer and
/// returns its body; leaves the buffer untouched while the frame is still
/// incomplete.
pub fn extract_frame(buf: &mut Vec<u8>) -> (r: Option<Vec<u8>>)
    ensures
        match r {
            Some(body) => take_frame(old(buf)@) matches Some(pair) && body@ == pair.0
                && final(buf)@ == pair.1,
            None => take_frame(old(buf)@) is None && final(buf)@ == old(buf)@,
        },
{
    if buf.len() < 1 {
        return None;
    }
    let n = buf[0] as usize;
    if buf.len() < 1 + n {
        return None;
    }
    let mut body: Vec<u8> = Vec::new();
    let mut i: usize = 0;
    while i < n
        invariant
            buf@ == old(buf)@,
            n == buf@[0],
            1 + n <= buf@.len(),
            i <= n,
            body@.len() == i,
            forall|j: int| 0 <= j < i ==> body@[j] == buf@[1 + j],
        decreases n - i,
    {
        body.push(buf[1 + i]);
        i = i + 1;
    }
    let mut rest: Vec<u8> = Vec::new();
    let mut j: usize = 1 + n;
    while j < buf.len()
        invariant
            buf@ == old(buf)@,
            n == buf@[0],
            1 + n <= j <= buf@.len(),
            rest@.len() == j - (1 + n),
            forall|k: int| 0 <= k < rest@.len() ==> rest@[k] == buf@[1 + n + k],
        decreases buf@.len() - j,
    {
        rest.push(buf[j]);
        j = j + 1;
    }
    proof {
        assert(body@ =~= old(buf)@.subrange(1, 1 + old(buf)@[0]));
        assert(rest@ =~= old(buf)@.subrange(1 + old(buf)@[0], old(buf)@.len() as int));
    }
    *buf = rest;
    Some(body)
}

} // verus!
