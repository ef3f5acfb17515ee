//! Core value types of the analysis pipeline: players, board points,
//! moves, the recorded move tree, and the error taxonomy.
use vstd::prelude::*;

verus! {

/// Which player placed a stone.
#[derive(Clone, Copy, PartialEq, Eq, Structural, Debug)]
pub enum Player {
    Black,
    White,
}

/// A zero-based board intersection; valid when both axes lie inside the
/// board size the game was recorded for.
#[derive(Clone, Copy, PartialEq, Eq, Structural, Debug)]
pub struct Point {
    pub x: u8,
    pub y: u8,
}

/// Where a half-move went: onto an intersection, or a pass.
#[derive(Clone, Copy, PartialEq, Eq, Structural, Debug)]
pub enum Vertex {
    Pass,
    At(Point),
}

/// One half-move of the principal variation.
#[derive(Clone, Copy, PartialEq, Eq, Structural, Debug)]
pub struct Move {
    pub player: Player,
    pub vertex: Vertex,
}

/// A node of the recorded game tree: the placements stated on the node
/// itself, and its child nodes in document order. Only the first child
/// of each node belongs to the principal variation; the others are
/// deliberately ignored by linearization (principal-variation selection).
pub struct MoveTree {
    pub placements: Vec<Move>,
    pub children: Vec<MoveTree>,
}

/// The failure taxonomy of an analysis run.
#[derive(Clone, Copy, PartialEq, Eq, Structural, Debug)]
pub enum ErrorKind {
    /// The recorded game claims a placement outside the board bounds.
    MalformedRecord,
    /// A position could not be written in the wire coordinate form.
    CoordinateOutOfRange,
    /// The engine stream is closed, broken, or the session was already
    /// faulted and must not be reused.
    EngineUnavailable,
    /// No response line arrived within the configured budget.
    EngineTimeout,
    /// A response line was unparsable or correlated to the wrong query.
    ProtocolViolation,
    /// A response parsed but lacked a field the query requested.
    IncompleteVerdict,
}

/// True when the point lies on a board of `bx` by `by` intersections.
pub open spec fn point_in_bounds(p: Point, bx: u8, by: u8) -> bool {
    p.x < bx && p.y < by
}

/// True when the move is a pass or its point lies on the board.
pub open spec fn move_in_bounds(m: Move, bx: u8, by: u8) -> bool {
    match m.vertex {
        Vertex::Pass => true,
        Vertex::At(p) => point_in_bounds(p, bx, by),
    }
}

/// The ordered moves along the principal variation of `t`: the node's own
/// placements in document order, then those of the chain of first
/// children. Sibling branches contribute nothing.
pub open spec fn principal_moves(t: MoveTree) -> Seq<Move>
    decreases t,
{
    t.placements@ + if t.children@.len() > 0 {
        principal_moves(t.children@[0])
    } else {
        Seq::<Move>::empty()
    }
}

} // verus!
