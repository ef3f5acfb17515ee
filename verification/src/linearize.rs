//! Move linearization: walking the recorded game tree along the chain of
//! first children and collecting every placement in play order.
use vstd::prelude::*;
use crate::model::{ErrorKind, Move, MoveTree, move_in_bounds, principal_moves};

verus! {

/// True when every move along the principal variation fits the board.
pub open spec fn principal_in_bounds(t: MoveTree, bx: u8, by: u8) -> bool {
    forall|i: int|
        0 <= i < principal_moves(t).len() ==> move_in_bounds(
            #[trigger] principal_moves(t)[i],
            bx,
            by,
        )
}

/// The moves of every node of `t`, in document order: the node's own
/// placements, then those of each child subtree in order.
pub open spec fn document_moves(t: MoveTree) -> Seq<Move>
    decreases t,
{
    t.placements@ + document_moves_of(t.children@)
}

/// The moves of a forest of subtrees, in document order.
pub open spec fn document_moves_of(ts: Seq<MoveTree>) -> Seq<Move>
    decreases ts,
{
    if ts.len() == 0 {
        Seq::<Move>::empty()
    } else {
        document_moves(ts[0]) + document_moves_of(ts.subrange(1, ts.len() as int))
    }
}

/// True when the tree never branches: every node has at most one child.
pub open spec fn is_linear(t: MoveTree) -> bool
    decreases t,
{
    t.children@.len() <= 1 && (t.children@.len() == 1 ==> is_linear(t.children@[0]))
}

/// On a tree with no branching, following only first children loses
/// nothing: linearization yields exactly the placements of every
/// placement-bearing node, in document order.
pub proof fn lemma_linear_principal_is_document_order(t: MoveTree)
    requires
        is_linear(t),
    ensures
        principal_moves(t) == document_moves(t),
    decreases t,
{
    if t.children@.len() == 0 {
        assert(principal_moves(t) =~= document_moves(t));
    } else {
        let c = t.children@[0];
        lemma_linear_principal_is_document_order(c);
        assert(t.children@.subrange(1, t.children@.len() as int) =~= Seq::<MoveTree>::empty());
        assert(document_moves_of(Seq::<MoveTree>::empty()) =~= Seq::<Move>::empty());
        assert(document_moves_of(t.children@) =~= document_moves(c));
        assert(principal_moves(t) =~= document_moves(t));
    }
}

/// Reports whether the move is a pass or lies on the `bx` by `by` board.
pub fn move_fits(m: &Move, bx: u8, by: u8) -> (b: bool)
    ensures
        b == move_in_bounds(*m, bx, by),
{
    match m.vertex {
        crate::model::Vertex::Pass => true,
        crate::model::Vertex::At(p) => p.x < bx && p.y < by,
    }
}

/// Produces the principal variation of `root` as an ordered move list.
///
/// Only the first child of each node is followed; sibling branches are
/// deliberately ignored. Succeeds exactly when every move along that
/// line fits the `bx` by `by` board, and fails with `MalformedRecord`
/// otherwise.
pub fn linearize(root: &MoveTree, bx: u8, by: u8) -> (r: Result<Vec<Move>, ErrorKind>)
    ensures
        match r {
            Ok(ms) => ms@ == principal_moves(*root) && principal_in_bounds(*root, bx, by),
            Err(k) => k == ErrorKind::MalformedRecord && !principal_in_bounds(*root, bx, by),
        },
{
    let mut out: Vec<Move> = Vec::new();
    let mut cur: &MoveTree = root;
    loop
        invariant
            out@ + principal_moves(*cur) == principal_moves(*root),
            forall|i: int| 0 <= i < out@.len() ==> move_in_bounds(#[trigger] out@[i], bx, by),
        decreases *cur,
    {
        let ghost done = out@;
        let n = cur.placements.len();
        let mut j: usize = 0;
        while j < n
            invariant
                n == cur.placements@.len(),
                j <= n,
                out@ == done + cur.placements@.subrange(0, j as int),
                done + principal_moves(*cur) == principal_moves(*root),
                forall|i: int| 0 <= i < out@.len() ==> move_in_bounds(#[trigger] out@[i], bx, by),
            decreases n - j,
        {
            let m = cur.placements[j];
            if !move_fits(&m, bx, by) {
                proof {
                    assert(principal_moves(*cur)[j as int] == cur.placements@[j as int]);
                    assert(principal_moves(*root)[done.len() + j] == cur.placements@[j as int]);
                }
                return Err(ErrorKind::MalformedRecord);
            }
            out.push(m);
            proof {
                assert(out@ =~= done + cur.placements@.subrange(0, j + 1));
            }
            j += 1;
        }
        proof {
            assert(cur.placements@.subrange(0, n as int) =~= cur.placements@);
        }
        if cur.children.len() == 0 {
            proof {
                assert(out@ =~= principal_moves(*root));
            }
            return Ok(out);
        }
        cur = &cur.children[0];
        proof {
            assert(out@ + principal_moves(*cur) =~= principal_moves(*root));
        }
    }
}

} // verus!
