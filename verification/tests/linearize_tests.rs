use go_analyzer::linearize::linearize;
use go_analyzer::model::{ErrorKind, Move, MoveTree, Player, Point, Vertex};

fn play(player: Player, x: u8, y: u8) -> Move {
    Move { player, vertex: Vertex::At(Point { x, y }) }
}

fn node(placements: Vec<Move>, children: Vec<MoveTree>) -> MoveTree {
    MoveTree { placements, children }
}

#[test]
fn linear_tree_yields_one_move_per_placement_in_order() {
    let tree = node(
        vec![],
        vec![node(
            vec![play(Player::Black, 3, 3)],
            vec![node(
                vec![play(Player::White, 15, 15)],
                vec![node(vec![play(Player::Black, 3, 15)], vec![])],
            )],
        )],
    );
    let moves = linearize(&tree, 19, 19).unwrap();
    assert_eq!(
        moves,
        vec![
            play(Player::Black, 3, 3),
            play(Player::White, 15, 15),
            play(Player::Black, 3, 15),
        ]
    );
}

#[test]
fn setup_nodes_contribute_no_move_but_are_traversed() {
    let tree = node(
        vec![],
        vec![node(vec![], vec![node(vec![play(Player::Black, 0, 0)], vec![])])],
    );
    let moves = linearize(&tree, 19, 19).unwrap();
    assert_eq!(moves, vec![play(Player::Black, 0, 0)]);
}

#[test]
fn only_first_child_is_followed() {
    let tree = node(
        vec![play(Player::Black, 2, 2)],
        vec![
            node(vec![play(Player::White, 4, 4)], vec![]),
            node(vec![play(Player::White, 9, 9)], vec![]),
        ],
    );
    let moves = linearize(&tree, 19, 19).unwrap();
    assert_eq!(moves, vec![play(Player::Black, 2, 2), play(Player::White, 4, 4)]);
}

#[test]
fn pass_moves_are_kept() {
    let tree = node(vec![Move { player: Player::Black, vertex: Vertex::Pass }], vec![]);
    let moves = linearize(&tree, 19, 19).unwrap();
    assert_eq!(moves, vec![Move { player: Player::Black, vertex: Vertex::Pass }]);
}

#[test]
fn out_of_bounds_placement_is_malformed() {
    let tree = node(
        vec![play(Player::Black, 3, 3)],
        vec![node(vec![play(Player::White, 19, 0)], vec![])],
    );
    assert_eq!(linearize(&tree, 19, 19), Err(ErrorKind::MalformedRecord));
}

#[test]
fn bounds_follow_the_given_board_size() {
    let tree = node(vec![play(Player::Black, 8, 8)], vec![]);
    assert!(linearize(&tree, 19, 19).is_ok());
    assert!(linearize(&tree, 9, 9).is_ok());
    assert_eq!(linearize(&tree, 8, 8), Err(ErrorKind::MalformedRecord));
}

#[test]
fn empty_tree_yields_no_moves() {
    let tree = node(vec![], vec![]);
    assert_eq!(linearize(&tree, 19, 19).unwrap(), vec![]);
}
