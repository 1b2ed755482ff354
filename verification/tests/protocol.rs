use chessnet::codec::{
    decode_c2s, decode_s2c, encode_c2s, encode_s2c, extract_frame, C2sMessage, MoveWire,
    S2cMessage,
};
use chessnet::game::GameState;
use chessnet::piece::{Color, PieceType};
use chessnet::session::{
    PeerSession, Phase, ProtocolError, Role, SessionEnd, State, TransportError,
};
use chessnet::square::Square;

fn wire(from_square: u8, to_square: u8) -> MoveWire {
    MoveWire { from_square, to_square, promotion: None }
}

fn c2s_round_trip(m: C2sMessage) -> C2sMessage {
    let mut buf = encode_c2s(&m);
    let body = extract_frame(&mut buf).expect("a whole frame");
    assert!(buf.is_empty());
    decode_c2s(&body).expect("a decodable body")
}

fn s2c_round_trip(m: S2cMessage) -> S2cMessage {
    let mut buf = encode_s2c(&m);
    let body = extract_frame(&mut buf).expect("a whole frame");
    assert!(buf.is_empty());
    decode_s2c(&body).expect("a decodable body")
}

#[test]
fn c2s_messages_round_trip() {
    assert_eq!(c2s_round_trip(C2sMessage::ConnectRequest), C2sMessage::ConnectRequest);
    let m = C2sMessage::Move(wire(12, 28));
    assert_eq!(c2s_round_trip(m), m);
    let p = C2sMessage::Move(MoveWire {
        from_square: 48,
        to_square: 56,
        promotion: Some(PieceType::Queen),
    });
    assert_eq!(c2s_round_trip(p), p);
}

#[test]
fn s2c_messages_round_trip() {
    assert_eq!(s2c_round_trip(S2cMessage::ConnectAck), S2cMessage::ConnectAck);
    assert_eq!(s2c_round_trip(S2cMessage::MoveAck), S2cMessage::MoveAck);
    let m = S2cMessage::Move(MoveWire {
        from_square: 51,
        to_square: 59,
        promotion: Some(PieceType::Knight),
    });
    assert_eq!(s2c_round_trip(m), m);
}

#[test]
fn decoding_rejects_malformed_bodies() {
    assert_eq!(decode_c2s(&vec![9]), None);
    assert_eq!(decode_c2s(&vec![]), None);
    assert_eq!(decode_c2s(&vec![1, 64, 0, 0]), None);
    assert_eq!(decode_c2s(&vec![1, 0, 64, 0]), None);
    assert_eq!(decode_c2s(&vec![1, 0, 0, 7]), None);
    assert_eq!(decode_c2s(&vec![1, 0, 0]), None);
    assert_eq!(decode_s2c(&vec![3]), None);
    assert_eq!(decode_s2c(&vec![0, 0]), None);
}

#[test]
fn a_poll_never_yields_a_partial_message() {
    let mut buf = vec![4u8, 1, 12];
    assert_eq!(extract_frame(&mut buf), None);
    assert_eq!(buf, vec![4u8, 1, 12]);
    buf.push(28);
    assert_eq!(extract_frame(&mut buf), None);
    buf.push(0);
    let body = extract_frame(&mut buf).expect("complete now");
    assert_eq!(body, vec![1u8, 12, 28, 0]);
    assert!(buf.is_empty());
}

#[test]
fn concatenated_frames_are_split_one_by_one() {
    let mut buf = encode_c2s(&C2sMessage::ConnectRequest);
    buf.extend(encode_c2s(&C2sMessage::Move(wire(12, 28))));
    let first = extract_frame(&mut buf).unwrap();
    assert_eq!(decode_c2s(&first), Some(C2sMessage::ConnectRequest));
    let second = extract_frame(&mut buf).unwrap();
    assert_eq!(decode_c2s(&second), Some(C2sMessage::Move(wire(12, 28))));
    assert!(buf.is_empty());
    assert_eq!(extract_frame(&mut buf), None);
}

#[test]
fn handshake_assigns_colors_by_role() {
    let mut host = PeerSession::new(Role::Acceptor);
    assert_eq!(host.local_color, Color::White);
    assert_eq!(host.phase, Phase::Idle);
    host.start();
    assert_eq!(host.phase, Phase::AwaitingPeer);
    assert_eq!(host.connection_established(), None);
    assert_eq!(host.phase, Phase::Handshaking);

    let mut client = PeerSession::new(Role::Initiator);
    assert_eq!(client.local_color, Color::Black);
    client.start();
    assert_eq!(client.connection_established(), Some(C2sMessage::ConnectRequest));

    let mut host_game = GameState::new();
    let reply = host.handle_c2s(&mut host_game, C2sMessage::ConnectRequest);
    assert_eq!(reply, Some(S2cMessage::ConnectAck));
    assert_eq!(host.phase, Phase::Active);
    assert_eq!(host.turn, State::Playing);

    let mut client_game = GameState::new();
    client.handle_s2c(&mut client_game, S2cMessage::ConnectAck);
    assert_eq!(client.phase, Phase::Active);
    assert_eq!(client.turn, State::Waiting);
}

#[test]
fn a_move_before_the_handshake_completes_is_fatal() {
    let mut host = PeerSession::new(Role::Acceptor);
    host.start();
    host.connection_established();
    let mut game = GameState::new();
    let reply = host.handle_c2s(&mut game, C2sMessage::Move(wire(12, 28)));
    assert_eq!(reply, None);
    assert_eq!(host.phase, Phase::Terminated);
    assert_eq!(
        host.termination,
        Some(SessionEnd::Protocol(ProtocolError::UnexpectedMessageForState))
    );
    assert_eq!(game.move_history().len(), 0);
}

fn active_host_with_game() -> (PeerSession, GameState) {
    let mut host = PeerSession::new(Role::Acceptor);
    host.start();
    host.connection_established();
    let mut game = GameState::new();
    host.handle_c2s(&mut game, C2sMessage::ConnectRequest);
    assert_eq!(host.phase, Phase::Active);
    (host, game)
}

#[test]
fn committing_a_local_move_hands_back_the_wire_payload() {
    let (mut host, mut game) = active_host_with_game();
    let m = chessnet::game::Move {
        from: Square { file: 4, rank: 1 },
        to: Square { file: 4, rank: 3 },
        promotion: None,
    };
    let w = host.commit_local(&mut game, m).unwrap();
    assert_eq!(w.from_square, 12);
    assert_eq!(w.to_square, 28);
    assert_eq!(w.promotion, None);
    assert_eq!(host.turn, State::Waiting);
    assert_eq!(host.last_sent_move, Some(m));
    assert_eq!(game.side_to_move(), Color::Black);
}

#[test]
fn committing_a_move_of_the_peers_color_is_refused() {
    let (mut host, mut game) = active_host_with_game();
    let m = chessnet::game::Move {
        from: Square { file: 4, rank: 6 },
        to: Square { file: 4, rank: 4 },
        promotion: None,
    };
    assert_eq!(
        host.commit_local(&mut game, m),
        Err(chessnet::game::IllegalMoveError::NotPlayersTurn)
    );
    assert_eq!(game.side_to_move(), Color::White);
    assert_eq!(host.turn, State::Playing);
}

#[test]
fn a_valid_remote_move_is_reapplied_and_acknowledged() {
    let (mut host, mut game) = active_host_with_game();
    let m = chessnet::game::Move {
        from: Square { file: 4, rank: 1 },
        to: Square { file: 4, rank: 3 },
        promotion: None,
    };
    host.commit_local(&mut game, m).unwrap();
    // Black replies e7 to e5: squares 52 and 36.
    let reply = host.handle_c2s(&mut game, C2sMessage::Move(wire(52, 36)));
    assert_eq!(reply, Some(S2cMessage::MoveAck));
    assert_eq!(host.phase, Phase::Active);
    assert_eq!(host.turn, State::Playing);
    assert_eq!(game.move_history().len(), 2);
    assert_eq!(game.side_to_move(), Color::White);
}

#[test]
fn a_remote_move_that_fails_revalidation_terminates_with_desync() {
    let (mut host, mut game) = active_host_with_game();
    // e2 to e5 (squares 12 and 36) is no legal pawn move.
    let reply = host.handle_c2s(&mut game, C2sMessage::Move(wire(12, 36)));
    assert_eq!(reply, None);
    assert_eq!(host.phase, Phase::Terminated);
    assert_eq!(host.termination, Some(SessionEnd::Protocol(ProtocolError::Desync)));
    // The board stays in its last consistent state.
    assert_eq!(game.move_history().len(), 0);
    assert_eq!(game.side_to_move(), Color::White);
    let mut game2 = GameState::new();
    let reply2 = host.handle_c2s(&mut game2, C2sMessage::Move(wire(12, 28)));
    assert_eq!(reply2, None);
    assert_eq!(game2.move_history().len(), 0);
}

#[test]
fn move_ack_clears_the_pending_move() {
    let mut client = PeerSession::new(Role::Initiator);
    client.start();
    client.connection_established();
    let mut game = GameState::new();
    client.handle_s2c(&mut game, S2cMessage::ConnectAck);
    // White (the host) opens; the client re-applies it.
    client.handle_s2c(&mut game, S2cMessage::Move(wire(12, 28)));
    assert_eq!(client.turn, State::Playing);
    let m = chessnet::game::Move {
        from: Square { file: 4, rank: 6 },
        to: Square { file: 4, rank: 4 },
        promotion: None,
    };
    client.commit_local(&mut game, m).unwrap();
    assert_eq!(client.last_sent_move, Some(m));
    client.handle_s2c(&mut game, S2cMessage::MoveAck);
    assert_eq!(client.last_sent_move, None);
    assert_eq!(client.phase, Phase::Active);
}

#[test]
fn transport_faults_terminate_the_session() {
    let (mut host, _game) = active_host_with_game();
    host.transport_failed(TransportError::Disconnected);
    assert_eq!(host.phase, Phase::Terminated);
    assert_eq!(
        host.termination,
        Some(SessionEnd::Transport(TransportError::Disconnected))
    );
}

#[test]
fn malformed_bytes_terminate_the_session() {
    let (mut host, mut game) = active_host_with_game();
    let raw = vec![9u8];
    if decode_c2s(&raw).is_none() {
        host.protocol_failed(ProtocolError::MalformedMessage);
    }
    assert_eq!(host.phase, Phase::Terminated);
    assert_eq!(
        host.termination,
        Some(SessionEnd::Protocol(ProtocolError::MalformedMessage))
    );
    // A terminated session processes nothing further.
    let reply = host.handle_c2s(&mut game, C2sMessage::Move(wire(12, 28)));
    assert_eq!(reply, None);
    assert_eq!(game.move_history().len(), 0);
}
