use go_analyzer::model::{ErrorKind, Move, Player, Point, Vertex};
use go_analyzer::session::{Session, SessionState, StreamEvent};
use go_analyzer::wire::QueryConfig;

fn config(include_policy: bool, include_ownership: bool) -> QueryConfig {
    QueryConfig {
        rules: String::from("chinese"),
        komi_halves: 15,
        board_x: 19,
        board_y: 19,
        max_visits: 500,
        include_policy,
        include_ownership,
    }
}

fn play(player: Player, x: u8, y: u8) -> Move {
    Move { player, vertex: Vertex::At(Point { x, y }) }
}

#[test]
fn first_query_line_is_exact() {
    let mut session = Session::new(config(true, true));
    let prefix = vec![play(Player::Black, 3, 3)];
    let line = session.begin_submit(&prefix).unwrap();
    assert_eq!(
        line,
        "{\"id\":\"0\",\"moves\":[[\"B\",\"D4\"]],\"rules\":\"chinese\",\"komi\":7.5,\
         \"boardXSize\":19,\"boardYSize\":19,\"maxVisits\":500,\
         \"includePolicy\":true,\"includeOwnership\":true}\n"
    );
    assert_eq!(session.state, SessionState::AwaitingResponse);
}

#[test]
fn echo_session_yields_verdicts_in_order_with_matching_ids() {
    let mut session = Session::new(config(false, false));
    let mut prefix: Vec<Move> = Vec::new();
    for i in 0u64..5 {
        prefix.push(play(if i % 2 == 0 { Player::Black } else { Player::White }, i as u8, i as u8));
        let line = session.begin_submit(&prefix).unwrap();
        assert!(line.contains(&format!("\"id\":\"{}\"", i)));
        let echo = format!("{{\"id\":\"{}\",\"winrate\":0.5,\"scoreLead\":0.0,\"visits\":500}}", i);
        let verdict = session.finish_submit(&StreamEvent::Line(echo)).unwrap();
        assert_eq!(verdict.id, i);
        assert_eq!(verdict.winrate_micros, 500_000);
        assert_eq!(verdict.score_lead_micros, 0);
        assert_eq!(verdict.visits, 500);
        assert_eq!(session.state, SessionState::Idle);
    }
}

#[test]
fn mismatched_id_faults_the_session_and_blocks_resubmission() {
    let mut session = Session::new(config(false, false));
    let prefix = vec![play(Player::Black, 3, 3)];
    session.begin_submit(&prefix).unwrap();
    let wrong = String::from("{\"id\":\"7\",\"winrate\":0.5,\"scoreLead\":0.0,\"visits\":500}");
    let outcome = session.finish_submit(&StreamEvent::Line(wrong));
    assert_eq!(outcome.err(), Some(ErrorKind::ProtocolViolation));
    assert_eq!(session.state, SessionState::Faulted);
    let retry = session.begin_submit(&prefix);
    assert_eq!(retry.err(), Some(ErrorKind::EngineUnavailable));
    assert_eq!(session.state, SessionState::Faulted);
}

#[test]
fn unparsable_line_is_a_protocol_violation() {
    let mut session = Session::new(config(false, false));
    let prefix = vec![play(Player::Black, 3, 3)];
    session.begin_submit(&prefix).unwrap();
    let garbled = String::from("not json at all");
    let outcome = session.finish_submit(&StreamEvent::Line(garbled));
    assert_eq!(outcome.err(), Some(ErrorKind::ProtocolViolation));
    assert_eq!(session.state, SessionState::Faulted);
}

#[test]
fn missing_ownership_is_fine_when_not_requested() {
    let mut session = Session::new(config(false, false));
    let prefix = vec![play(Player::Black, 3, 3)];
    session.begin_submit(&prefix).unwrap();
    let line = String::from("{\"id\":\"0\",\"winrate\":0.5,\"scoreLead\":0.0,\"visits\":500}");
    let verdict = session.finish_submit(&StreamEvent::Line(line)).unwrap();
    assert_eq!(verdict.ownership, None);
    assert_eq!(session.state, SessionState::Idle);
}

#[test]
fn missing_ownership_is_incomplete_when_requested() {
    let mut session = Session::new(config(false, true));
    let prefix = vec![play(Player::Black, 3, 3)];
    session.begin_submit(&prefix).unwrap();
    let line = String::from("{\"id\":\"0\",\"winrate\":0.5,\"scoreLead\":0.0,\"visits\":500}");
    let outcome = session.finish_submit(&StreamEvent::Line(line));
    assert_eq!(outcome.err(), Some(ErrorKind::IncompleteVerdict));
    assert_eq!(session.state, SessionState::Idle);
}

#[test]
fn timeout_fails_the_query_and_faults_the_session() {
    let mut session = Session::new(config(false, false));
    let prefix = vec![play(Player::Black, 3, 3)];
    session.begin_submit(&prefix).unwrap();
    let outcome = session.finish_submit(&StreamEvent::TimedOut);
    assert_eq!(outcome.err(), Some(ErrorKind::EngineTimeout));
    assert_eq!(session.state, SessionState::Faulted);
    let retry = session.begin_submit(&prefix);
    assert_eq!(retry.err(), Some(ErrorKind::EngineUnavailable));
}

#[test]
fn broken_stream_is_engine_unavailable() {
    let mut session = Session::new(config(false, false));
    let prefix = vec![play(Player::Black, 3, 3)];
    session.begin_submit(&prefix).unwrap();
    let outcome = session.finish_submit(&StreamEvent::Broken);
    assert_eq!(outcome.err(), Some(ErrorKind::EngineUnavailable));
    assert_eq!(session.state, SessionState::Faulted);
}

#[test]
fn out_of_bounds_prefix_is_a_coordinate_failure() {
    let mut session = Session::new(config(false, false));
    let prefix = vec![play(Player::Black, 19, 3)];
    let outcome = session.begin_submit(&prefix);
    assert_eq!(outcome.err(), Some(ErrorKind::CoordinateOutOfRange));
    assert_eq!(session.state, SessionState::Idle);
}

#[test]
fn pass_and_negative_komi_render_on_the_wire() {
    let mut params = config(false, false);
    params.komi_halves = -13;
    let mut session = Session::new(params);
    let prefix = vec![Move { player: Player::White, vertex: Vertex::Pass }];
    let line = session.begin_submit(&prefix).unwrap();
    assert_eq!(
        line,
        "{\"id\":\"0\",\"moves\":[[\"W\",\"pass\"]],\"rules\":\"chinese\",\"komi\":-6.5,\
         \"boardXSize\":19,\"boardYSize\":19,\"maxVisits\":500,\
         \"includePolicy\":false,\"includeOwnership\":false}\n"
    );
}

#[test]
fn even_komi_renders_without_fraction() {
    let mut params = config(false, false);
    params.komi_halves = 12;
    let mut session = Session::new(params);
    let prefix: Vec<Move> = vec![];
    let line = session.begin_submit(&prefix).unwrap();
    assert!(line.contains("\"komi\":6,"));
    assert!(line.contains("\"moves\":[],"));
}
