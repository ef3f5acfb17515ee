use go_analyzer::model::{ErrorKind, Move, Player, Point, Vertex};
use go_analyzer::wire::{encode_query, make_query, query_wire_line, QueryConfig};

fn config() -> QueryConfig {
    QueryConfig {
        rules: String::from("japanese"),
        komi_halves: 13,
        board_x: 9,
        board_y: 9,
        max_visits: 100,
        include_policy: true,
        include_ownership: false,
    }
}

fn play(player: Player, x: u8, y: u8) -> Move {
    Move { player, vertex: Vertex::At(Point { x, y }) }
}

#[test]
fn query_carries_ply_id_prefix_and_parameters() {
    let prefix = vec![play(Player::Black, 4, 4), play(Player::White, 2, 6)];
    let query = make_query(7, &prefix, &config());
    assert_eq!(query.id, 7);
    assert_eq!(query.moves_so_far, prefix);
    assert_eq!(query.params.rules, "japanese");
    assert_eq!(query.params.max_visits, 100);
}

#[test]
fn query_line_is_exact_for_a_small_board() {
    let prefix = vec![play(Player::Black, 4, 4), play(Player::White, 2, 6)];
    let query = make_query(7, &prefix, &config());
    let line = query_wire_line(&query).unwrap();
    assert_eq!(
        line,
        "{\"id\":\"7\",\"moves\":[[\"B\",\"E5\"],[\"W\",\"C7\"]],\"rules\":\"japanese\",\
         \"komi\":6.5,\"boardXSize\":9,\"boardYSize\":9,\"maxVisits\":100,\
         \"includePolicy\":true,\"includeOwnership\":false}\n"
    );
}

#[test]
fn encoding_rejects_moves_off_the_configured_board() {
    let prefix = vec![play(Player::Black, 9, 0)];
    assert_eq!(
        encode_query(0, &prefix, &config()).err(),
        Some(ErrorKind::CoordinateOutOfRange)
    );
    let inside = vec![play(Player::Black, 8, 8)];
    assert!(encode_query(0, &inside, &config()).is_ok());
}
