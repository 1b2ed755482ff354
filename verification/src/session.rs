//! The per-connection session: role and color assignment, the handshake,
//! and the turn-exchange loop, with every remote move re-validated through
//! the local rules engine before it is committed.

use vstd::prelude::*;

use crate::codec::{C2sMessage, MoveWire, S2cMessage};
use crate::game::{apply_error_ok, GameState, IllegalMoveError, Move};
use crate::piece::Color;
use crate::square::Square;

verus! {

/// Which end of the connection this process is: the Initiator opens a
/// connection to a known address, the Acceptor listens for one.
#[derive(Clone, Copy, Debug, PartialEq, Eq, Structural)]
pub enum Role {
    Initiator,
    Acceptor,
}

/// Where the connection stands.
#[derive(Clone, Copy, Debug, PartialEq, Eq, Structural)]
pub enum Phase {
    Idle,
    AwaitingPeer,
    Handshaking,
    Active,
    Terminated,
}

/// Whether the local player may enter a move or is waiting on the peer.
#[derive(Clone, Copy, Debug, PartialEq, Eq, Structural)]
pub enum State {
    Waiting,
    Playing,
}

/// Protocol faults; every one is fatal to the session.
#[derive(Clone, Copy, Debug, PartialEq, Eq, Structural)]
pub enum ProtocolError {
    MalformedMessage,
    UnexpectedMessageForState,
    Desync,
}

/// Transport faults, as classified by the process doing the I/O: the first
/// two are fatal at startup, the last two fatal mid-session.
#[derive(Clone, Copy, Debug, PartialEq, Eq, Structural)]
pub enum TransportError {
    ConnectFailed,
    BindFailed,
    ReadFailed,
    Disconnected,
}

/// Why a session ended.
#[derive(Clone, Copy, Debug, PartialEq, Eq, Structural)]
pub enum SessionEnd {
    Protocol(ProtocolError),
    Transport(TransportError),
}

/// The fixed role-to-color convention: the Acceptor plays White, the
/// Initiator Black.
pub open spec fn spec_color_for_role(r: Role) -> Color {
    if r is Acceptor {
        Color::White
    } else {
        Color::Black
    }
}

/// The turn state on entering the active phase: White moves first.
pub open spec fn spec_turn_on_start(local: Color) -> State {
    if local is White {
        State::Playing
    } else {
        State::Waiting
    }
}

/// The square a wire index below 64 names.
pub open spec fn square_of(i: u8) -> Square {
    Square { file: ((i as int) % 8) as u8, rank: ((i as int) / 8) as u8 }
}

/// The move a well-formed wire payload names.
pub open spec fn move_of_wire(w: MoveWire) -> Move {
    Move { from: square_of(w.from_square), to: square_of(w.to_square), promotion: w.promotion }
}

/// The library move named by a well-formed wire payload.
pub fn wire_to_move(w: MoveWire) -> (m: Move)
    requires
        w.wf(),
    ensures
        m == move_of_wire(w),
        m.from.valid(),
        m.to.valid(),
        m.from.idx() == w.from_square,
        m.to.idx() == w.to_square,
{
    let from = Square { file: w.from_square % 8, rank: w.from_square / 8 };
    let to = Square { file: w.to_square % 8, rank: w.to_square / 8 };
    Move { from, to, promotion: w.promotion }
}

/// The wire payload naming a move.
pub fn move_to_wire(m: &Move) -> (w: MoveWire)
    requires
        m.from.valid(),
        m.to.valid(),
    ensures
        w.wf(),
        w.from_square == m.from.idx(),
        w.to_square == m.to.idx(),
        w.promotion == m.promotion,
{
    MoveWire {
        from_square: m.from.index(),
        to_square: m.to.index(),
        promotion: m.promotion,
    }
}

/// The per-connection state machine. The game state itself is owned by the
/// surrounding process and handed in by reference: consistency between the
/// peers rests only on both sides independently applying the same validated
/// moves.
#[derive(Clone, Copy, Debug, PartialEq, Eq)]
pub struct PeerSession {
    pub role: Role,
    pub local_color: Color,
    pub phase: Phase,
    pub turn: State,
    pub last_sent_move: Option<Move>,
    pub termination: Option<SessionEnd>,
}

impl PeerSession {
    /// A fresh session for the given role, colored by the fixed convention.
    pub fn new(role: Role) -> (s: PeerSession)
        ensures
            s == (PeerSession {
                role,
                local_color: spec_color_for_role(role),
                phase: Phase::Idle,
                turn: State::Waiting,
                last_sent_move: None,
                termination: None,
            }),
    {
        let local_color = match role {
            Role::Acceptor => Color::White,
            Role::Initiator => Color::Black,
        };
        PeerSession {
            role,
            local_color,
            phase: Phase::Idle,
            turn: State::Waiting,
            last_sent_move: None,
            termination: None,
        }
    }

    /// Begins waiting for the peer: listening as Acceptor, connecting as
    /// Initiator.
    pub fn start(&mut self)
        requires
            old(self).phase is Idle,
        ensures
            *final(self) == (PeerSession { phase: Phase::AwaitingPeer, ..*old(self) }),
    {
        self.phase = Phase::AwaitingPeer;
    }

    /// Records an established connection and begins the handshake; the
    /// Initiator gets the ConnectRequest to send.
    pub fn connection_established(&mut self) -> (send: Option<C2sMessage>)
        requires
            old(self).phase is AwaitingPeer,
        ensures
            *final(self) == (PeerSession { phase: Phase::Handshaking, ..*old(self) }),
            send == if old(self).role is Initiator {
                Some(C2sMessage::ConnectRequest)
            } else {
                None::<C2sMessage>
            },
    {
        self.phase = Phase::Handshaking;
        match self.role {
            Role::Initiator => Some(C2sMessage::ConnectRequest),
            Role::Acceptor => None,
        }
    }

    /// Ends the session on a transport fault.
    pub fn transport_failed(&mut self, e: TransportError)
        ensures
            *final(self) == (PeerSession {
                phase: Phase::Terminated,
                termination: Some(SessionEnd::Transport(e)),
                ..*old(self)
            }),
    {
        self.phase = Phase::Terminated;
        self.termination = Some(SessionEnd::Transport(e));
    }

    /// Ends the session on a protocol fault (undecodable bytes are reported
    /// here by the process that read them).
    pub fn protocol_failed(&mut self, e: ProtocolError)
        ensures
            *final(self) == (PeerSession {
                phase: Phase::Terminated,
                termination: Some(SessionEnd::Protocol(e)),
                ..*old(self)
            }),
    {
        self.phase = Phase::Terminated;
        self.termination = Some(SessionEnd::Protocol(e));
    }

    /// Re-applies a remote move through the local rules engine rather than
    /// trusting the sender. A move the local engine rejects means the two
    /// board states have diverged: the session ends with Desync, and the
    /// position stays in its last consistent state.
    fn apply_remote(&mut self, game: &mut GameState, w: MoveWire) -> (ok: bool)
        requires
            w.wf(),
            old(self).phase is Active,
            old(game).wf(),
            old(game)@.halfmove_clock < u32::MAX,
            old(game)@.fullmove_number < u32::MAX,
        ensures
            final(game).wf(),
            ok == old(game)@.move_ok(move_of_wire(w)),
            ok ==> final(game)@ == old(game)@.apply_view(move_of_wire(w)) && *final(self)
                == (PeerSession { turn: State::Playing, ..*old(self) }),
            !ok ==> *final(game) == *old(game) && *final(self) == (PeerSession {
                phase: Phase::Terminated,
                termination: Some(SessionEnd::Protocol(ProtocolError::Desync)),
                ..*old(self)
            }),
    {
        let m = wire_to_move(w);
        match game.apply(m) {
            Ok(_) => {
                self.turn = State::Playing;
                true
            },
            Err(_) => {
                self.phase = Phase::Terminated;
                self.termination = Some(SessionEnd::Protocol(ProtocolError::Desync));
                false
            },
        }
    }

    /// Handles one decoded client message; only the Acceptor receives
    /// these. A terminated session ignores everything; a message the
    /// current phase does not expect is fatal; during the handshake a
    /// ConnectRequest is answered with ConnectAck; in play, a remote Move
    /// is re-validated and, when it applies, acknowledged.
    pub fn handle_c2s(&mut self, game: &mut GameState, msg: C2sMessage) -> (reply: Option<
        S2cMessage,
    >)
        requires
            old(self).role is Acceptor,
            msg.wf(),
            old(game).wf(),
            old(game)@.halfmove_clock < u32::MAX,
            old(game)@.fullmove_number < u32::MAX,
        ensures
            final(game).wf(),
            match old(self).phase {
                Phase::Terminated => *final(self) == *old(self) && *final(game) == *old(game)
                    && reply is None,
                Phase::Handshaking => match msg {
                    C2sMessage::ConnectRequest => {
                        &&& *final(self) == (PeerSession {
                            phase: Phase::Active,
                            turn: spec_turn_on_start(old(self).local_color),
                            ..*old(self)
                        })
                        &&& *final(game) == *old(game)
                        &&& reply == Some(S2cMessage::ConnectAck)
                    },
                    C2sMessage::Move(_) => {
                        &&& *final(self) == (PeerSession {
                            phase: Phase::Terminated,
                            termination: Some(
                                SessionEnd::Protocol(ProtocolError::UnexpectedMessageForState),
                            ),
                            ..*old(self)
                        })
                        &&& *final(game) == *old(game)
                        &&& reply is None
                    },
                },
                Phase::Active => match msg {
                    C2sMessage::Move(w) => if old(game)@.move_ok(move_of_wire(w)) {
                        &&& final(game)@ == old(game)@.apply_view(move_of_wire(w))
                        &&& *final(self) == (PeerSession {
                            turn: State::Playing,
                            ..*old(self)
                        })
                        &&& reply == Some(S2cMessage::MoveAck)
                    } else {
                        &&& *final(game) == *old(game)
                        &&& *final(self) == (PeerSession {
                            phase: Phase::Terminated,
                            termination: Some(SessionEnd::Protocol(ProtocolError::Desync)),
                            ..*old(self)
                        })
                        &&& reply is None
                    },
                    C2sMessage::ConnectRequest => {
                        &&& *final(self) == (PeerSession {
                            phase: Phase::Terminated,
                            termination: Some(
                                SessionEnd::Protocol(ProtocolError::UnexpectedMessageForState),
                            ),
                            ..*old(self)
                        })
                        &&& *final(game) == *old(game)
                        &&& reply is None
                    },
                },
                _ => {
                    &&& *final(self) == (PeerSession {
                        phase: Phase::Terminated,
                        termination: Some(
                            SessionEnd::Protocol(ProtocolError::UnexpectedMessageForState),
                        ),
                        ..*old(self)
                    })
                    &&& *final(game) == *old(game)
                    &&& reply is None
                },
            },
    {
        match self.phase {
            Phase::Terminated => None,
            Phase::Handshaking => match msg {
                C2sMessage::ConnectRequest => {
                    self.phase = Phase::Active;
                    self.turn = match self.local_color {
                        Color::White => State::Playing,
                        Color::Black => State::Waiting,
                    };
                    Some(S2cMessage::ConnectAck)
                },
                C2sMessage::Move(_) => {
                    self.protocol_failed(ProtocolError::UnexpectedMessageForState);
                    None
                },
            },
            Phase::Active => match msg {
                C2sMessage::Move(w) => {
                    if self.apply_remote(game, w) {
                        Some(S2cMessage::MoveAck)
                    } else {
                        None
                    }
                },
                C2sMessage::ConnectRequest => {
                    self.protocol_failed(ProtocolError::UnexpectedMessageForState);
                    None
                },
            },
            _ => {
                self.protocol_failed(ProtocolError::UnexpectedMessageForState);
                None
            },
        }
    }

    /// Handles one decoded host message; only the Initiator receives these.
    /// A ConnectAck completes the handshake; in play, a remote Move is
    /// re-validated, and a MoveAck only clears the pending move so that the
    /// local player may enter the next one.
    pub fn handle_s2c(&mut self, game: &mut GameState, msg: S2cMessage)
        requires
            old(self).role is Initiator,
            msg.wf(),
            old(game).wf(),
            old(game)@.halfmove_clock < u32::MAX,
            old(game)@.fullmove_number < u32::MAX,
        ensures
            final(game).wf(),
            match old(self).phase {
                Phase::Terminated => *final(self) == *old(self) && *final(game) == *old(game),
                Phase::Handshaking => match msg {
                    S2cMessage::ConnectAck => {
                        &&& *final(self) == (PeerSession {
                            phase: Phase::Active,
                            turn: spec_turn_on_start(old(self).local_color),
                            ..*old(self)
                        })
                        &&& *final(game) == *old(game)
                    },
                    _ => {
                        &&& *final(self) == (PeerSession {
                            phase: Phase::Terminated,
                            termination: Some(
                                SessionEnd::Protocol(ProtocolError::UnexpectedMessageForState),
                            ),
                            ..*old(self)
                        })
                        &&& *final(game) == *old(game)
                    },
                },
                Phase::Active => match msg {
                    S2cMessage::Move(w) => if old(game)@.move_ok(move_of_wire(w)) {
                        &&& final(game)@ == old(game)@.apply_view(move_of_wire(w))
                        &&& *final(self) == (PeerSession {
                            turn: State::Playing,
                            ..*old(self)
                        })
                    } else {
                        &&& *final(game) == *old(game)
                        &&& *final(self) == (PeerSession {
                            phase: Phase::Terminated,
                            termination: Some(SessionEnd::Protocol(ProtocolError::Desync)),
                            ..*old(self)
                        })
                    },
                    S2cMessage::MoveAck => {
                        &&& *final(self) == (PeerSession {
                            last_sent_move: None,
                            ..*old(self)
                        })
                        &&& *final(game) == *old(game)
                    },
                    S2cMessage::ConnectAck => {
                        &&& *final(self) == (PeerSession {
                            phase: Phase::Terminated,
                            termination: Some(
                                SessionEnd::Protocol(ProtocolError::UnexpectedMessageForState),
                            ),
                            ..*old(self)
                        })
                        &&& *final(game) == *old(game)
                    },
                },
                _ => {
                    &&& *final(self) == (PeerSession {
                        phase: Phase::Terminated,
                        termination: Some(
                            SessionEnd::Protocol(ProtocolError::UnexpectedMessageForState),
                        ),
                        ..*old(self)
                    })
                    &&& *final(game) == *old(game)
                },
            },
    {
        match self.phase {
            Phase::Terminated => {},
            Phase::Handshaking => match msg {
                S2cMessage::ConnectAck => {
                    self.phase = Phase::Active;
                    self.turn = match self.local_color {
                        Color::White => State::Playing,
                        Color::Black => State::Waiting,
                    };
                },
                _ => {
                    self.protocol_failed(ProtocolError::UnexpectedMessageForState);
                },
            },
            Phase::Active => match msg {
                S2cMessage::Move(w) => {
                    self.apply_remote(game, w);
                },
                S2cMessage::MoveAck => {
                    self.last_sent_move = None;
                },
                S2cMessage::ConnectAck => {
                    self.protocol_failed(ProtocolError::UnexpectedMessageForState);
                },
            },
            _ => {
                self.protocol_failed(ProtocolError::UnexpectedMessageForState);
            },
        }
    }

    /// Applies a move the local player entered and, when the engine accepts
    /// it, hands back the wire payload to send; the session then waits for
    /// the peer. A move of the peer's pieces is refused as NotPlayersTurn.
    /// Rejection leaves session and position unchanged and sends nothing.
    pub fn commit_local(&mut self, game: &mut GameState, m: Move) -> (r: Result<
        MoveWire,
        IllegalMoveError,
    >)
        requires
            old(self).phase is Active,
            m.from.valid(),
            m.to.valid(),
            old(game).wf(),
            old(game)@.halfmove_clock < u32::MAX,
            old(game)@.fullmove_number < u32::MAX,
        ensures
            final(game).wf(),
            match r {
                Ok(w) => {
                    &&& old(game)@.side_to_move == old(self).local_color
                    &&& old(game)@.move_ok(m)
                    &&& final(game)@ == old(game)@.apply_view(m)
                    &&& *final(self) == (PeerSession {
                        turn: State::Waiting,
                        last_sent_move: Some(m),
                        ..*old(self)
                    })
                    &&& w.wf()
                    &&& w.from_square == m.from.idx()
                    &&& w.to_square == m.to.idx()
                    &&& w.promotion == m.promotion
                },
                Err(e) => {
                    &&& *final(self) == *old(self)
                    &&& *final(game) == *old(game)
                    &&& if old(game)@.side_to_move != old(self).local_color {
                        e is NotPlayersTurn
                    } else {
                        apply_error_ok(old(game)@, m, e)
                    }
                },
            },
    {
        if !(game.side_to_move() == self.local_color) {
            return Err(IllegalMoveError::NotPlayersTurn);
        }
        match game.apply(m) {
            Ok(_) => {
                self.turn = State::Waiting;
                self.last_sent_move = Some(m);
                Ok(move_to_wire(&m))
            },
            Err(e) => Err(e),
        }
    }
}

} // verus!
