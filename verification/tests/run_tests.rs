use go_analyzer::model::{ErrorKind, Move, Player, Point, Vertex};
use go_analyzer::run::run_session;
use go_analyzer::session::StreamEvent;
use go_analyzer::wire::QueryConfig;

fn config() -> QueryConfig {
    QueryConfig {
        rules: String::from("chinese"),
        komi_halves: 15,
        board_x: 19,
        board_y: 19,
        max_visits: 500,
        include_policy: false,
        include_ownership: false,
    }
}

fn play(player: Player, x: u8, y: u8) -> Move {
    Move { player, vertex: Vertex::At(Point { x, y }) }
}

fn stub_line(n: usize) -> StreamEvent {
    StreamEvent::Line(format!(
        "{{\"id\":\"{}\",\"winrate\":0.5{},\"scoreLead\":1.0,\"visits\":500}}",
        n,
        if n == 0 { String::new() } else { format!("{}", n) }
    ))
}

#[test]
fn three_move_game_assembles_three_nodes_in_ply_order() {
    let moves = vec![
        play(Player::Black, 3, 3),
        play(Player::White, 15, 15),
        play(Player::Black, 3, 15),
    ];
    let events = vec![stub_line(0), stub_line(1), stub_line(2)];
    let nodes = run_session(&moves, config(), &events).unwrap();
    assert_eq!(nodes.len(), 3);
    let expected_micros = [500_000i64, 510_000, 520_000];
    for (i, node) in nodes.iter().enumerate() {
        assert_eq!(node.mv, moves[i]);
        assert_eq!(node.verdict.id, i as u64);
        assert_eq!(node.verdict.winrate_micros, expected_micros[i]);
        assert_eq!(node.verdict.winrate_micros as f64 / 1e6, 0.5 + 0.01 * i as f64);
        assert_eq!(node.verdict.score_lead_micros, 1_000_000);
        assert_eq!(node.verdict.visits, 500);
        assert_eq!(node.comment, "");
    }
}

#[test]
fn a_mismatched_response_aborts_at_its_ply() {
    let moves = vec![play(Player::Black, 3, 3), play(Player::White, 15, 15)];
    let events = vec![stub_line(0), stub_line(0)];
    let failure = run_session(&moves, config(), &events).unwrap_err();
    assert_eq!(failure.kind, ErrorKind::ProtocolViolation);
    assert_eq!(failure.ply, 1);
}

#[test]
fn a_silent_engine_times_the_run_out_at_ply_zero() {
    let moves = vec![play(Player::Black, 3, 3)];
    let events = vec![StreamEvent::TimedOut];
    let failure = run_session(&moves, config(), &events).unwrap_err();
    assert_eq!(failure.kind, ErrorKind::EngineTimeout);
    assert_eq!(failure.ply, 0);
}

#[test]
fn an_out_of_bounds_move_aborts_before_any_write() {
    let moves = vec![play(Player::Black, 3, 3), play(Player::White, 19, 19)];
    let events = vec![stub_line(0), stub_line(1)];
    let failure = run_session(&moves, config(), &events).unwrap_err();
    assert_eq!(failure.kind, ErrorKind::CoordinateOutOfRange);
    assert_eq!(failure.ply, 1);
}

#[test]
fn an_empty_game_yields_no_nodes() {
    let moves: Vec<Move> = vec![];
    let events: Vec<StreamEvent> = vec![];
    let nodes = run_session(&moves, config(), &events).unwrap();
    assert!(nodes.is_empty());
}
