//! The baseline analysis run: one logical worker iterates the plies,
//! submits the growing prefix for each, completes it with the next
//! transport event, and assembles the annotated result in ply order.
use vstd::prelude::*;
use crate::model::{ErrorKind, Move, move_in_bounds};
use crate::session::{Session, SessionState, StreamEvent, event_outcome};
use crate::verdict::{AnalysisVerdict, VerdictSpec};
use crate::wire::{QueryConfig, config_wf};

verus! {

/// One annotated position: the move played and the engine's verdict on
/// the position after it. The comment is empty until a downstream
/// annotator fills it.
#[derive(Debug)]
pub struct AnnotatedNode {
    pub mv: Move,
    pub verdict: AnalysisVerdict,
    pub comment: String,
}

/// The mathematical shape of an annotated position.
pub ghost struct AnnotatedNodeSpec {
    pub mv: Move,
    pub verdict: VerdictSpec,
    pub comment: Seq<char>,
}

impl View for AnnotatedNode {
    type V = AnnotatedNodeSpec;

    open spec fn view(&self) -> AnnotatedNodeSpec {
        AnnotatedNodeSpec { mv: self.mv, verdict: self.verdict@, comment: self.comment@ }
    }
}

/// How a run ended early: the error kind and the ply it struck at.
#[derive(Clone, Copy, PartialEq, Eq, Structural, Debug)]
pub struct RunFailure {
    pub kind: ErrorKind,
    pub ply: usize,
}

/// True when every ply before `upto` is clean: its move fits the board
/// and its transport event denotes a verdict for its id.
pub open spec fn plies_good(
    moves: Seq<Move>,
    params: QueryConfig,
    events: Seq<StreamEvent>,
    upto: int,
) -> bool {
    (forall|j: int|
        0 <= j < upto ==> move_in_bounds(#[trigger] moves[j], params.board_x, params.board_y))
        && (forall|j: int|
        0 <= j < upto ==> #[trigger] event_outcome(events[j], j as nat, params) is Ok)
}

/// True when `nodes` is the complete assembled result of a clean run:
/// one node per ply in ply order, each pairing its ply's move with the
/// verdict its ply's event denotes, comments still empty.
pub open spec fn run_result_ok(
    moves: Seq<Move>,
    params: QueryConfig,
    events: Seq<StreamEvent>,
    nodes: Seq<AnnotatedNode>,
) -> bool {
    nodes.len() == moves.len() && plies_good(moves, params, events, moves.len() as int) && (forall|
        i: int,
    |
        0 <= i < moves.len() ==> #[trigger] nodes[i]@.mv == moves[i]) && (forall|i: int|
        0 <= i < moves.len() ==> (#[trigger] nodes[i]@.comment).len() == 0) && (forall|i: int|
        0 <= i < moves.len() ==> #[trigger] event_outcome(events[i], i as nat, params) == Ok::<
            VerdictSpec,
            ErrorKind,
        >(nodes[i]@.verdict))
}

/// True when `f` reports the first unclean ply: every earlier ply is
/// clean, and at `f.ply` either the move does not fit the board (a
/// coordinate failure) or its event denotes exactly `f.kind`.
pub open spec fn run_failure_ok(
    moves: Seq<Move>,
    params: QueryConfig,
    events: Seq<StreamEvent>,
    f: RunFailure,
) -> bool {
    f.ply < moves.len() && plies_good(moves, params, events, f.ply as int) && ((f.kind
        == ErrorKind::CoordinateOutOfRange && !move_in_bounds(
        moves[f.ply as int],
        params.board_x,
        params.board_y,
    )) || (move_in_bounds(moves[f.ply as int], params.board_x, params.board_y) && event_outcome(
        events[f.ply as int],
        f.ply as nat,
        params,
    ) == Err::<VerdictSpec, ErrorKind>(f.kind)))
}

/// Drives a whole analysis run over pre-collected transport events,
/// one event per ply: for each ply the prefix through it is submitted
/// and completed with that ply's event, strictly in order, and each
/// verdict is paired with its move as an annotated node. The first
/// failure aborts the run and is reported with its ply index. On
/// success there is exactly one node per ply, in ply order, each
/// carrying the verdict its event denotes for that ply's id — so a
/// transport that answers every query in order with its own id yields
/// every verdict, in order, with matching ids.
#[verifier::rlimit(80)]
pub fn run_session(moves: &Vec<Move>, params: QueryConfig, events: &Vec<StreamEvent>) -> (r: Result<
    Vec<AnnotatedNode>,
    RunFailure,
>)
    requires
        config_wf(params),
        events@.len() == moves@.len(),
    ensures
        match r {
            Ok(nodes) => run_result_ok(moves@, params, events@, nodes@),
            Err(f) => run_failure_ok(moves@, params, events@, f),
        },
{
    let mut session = Session::new(params);
    let mut prefix: Vec<Move> = Vec::new();
    let mut nodes: Vec<AnnotatedNode> = Vec::new();
    let n = moves.len();
    let mut i: usize = 0;
    proof {
        assert(prefix@ =~= moves@.subrange(0, 0));
    }
    while i < n
        invariant
            n == moves@.len(),
            i <= n,
            events@.len() == n,
            config_wf(params),
            session.wf(),
            session.params == params,
            session.state == SessionState::Idle,
            session.next_id == i,
            prefix@ == moves@.subrange(0, i as int),
            nodes@.len() == i,
            plies_good(moves@, params, events@, i as int),
            forall|j: int| 0 <= j < i ==> #[trigger] nodes@[j]@.mv == moves@[j],
            forall|j: int| 0 <= j < i ==> (#[trigger] nodes@[j]@.comment).len() == 0,
            forall|j: int|
                0 <= j < i ==> #[trigger] event_outcome(events@[j], j as nat, params) == Ok::<
                    VerdictSpec,
                    ErrorKind,
                >(nodes@[j]@.verdict),
        decreases n - i,
    {
        prefix.push(moves[i]);
        proof {
            assert(prefix@ =~= moves@.subrange(0, i + 1));
        }
        match session.begin_submit(&prefix) {
            Err(k) => {
                proof {
                    assert(k == ErrorKind::CoordinateOutOfRange);
                    assert(!crate::wire::moves_fit(prefix@, params));
                    if move_in_bounds(moves@[i as int], params.board_x, params.board_y) {
                        assert forall|q: int| 0 <= q < prefix@.len() implies move_in_bounds(
                            #[trigger] prefix@[q],
                            params.board_x,
                            params.board_y,
                        ) by {
                            if q < i {
                                assert(prefix@[q] == moves@[q]);
                                assert(move_in_bounds(moves@[q], params.board_x, params.board_y));
                            } else {
                                assert(prefix@[q] == moves@[i as int]);
                            }
                        }
                        assert(crate::wire::moves_fit(prefix@, params));
                        assert(false);
                    }
                    assert(run_failure_ok(
                        moves@,
                        params,
                        events@,
                        (RunFailure { kind: k, ply: i }),
                    ));
                }
                return Err(RunFailure { kind: k, ply: i });
            },
            Ok(_line) => {},
        }
        let ev = &events[i];
        proof {
            assert(prefix@[i as int] == moves@[i as int]);
            assert(move_in_bounds(moves@[i as int], params.board_x, params.board_y));
        }
        match session.finish_submit(ev) {
            Err(k) => {
                proof {
                    assert(event_outcome(events@[i as int], i as nat, params) == Err::<
                        VerdictSpec,
                        ErrorKind,
                    >(k));
                    assert(run_failure_ok(
                        moves@,
                        params,
                        events@,
                        (RunFailure { kind: k, ply: i }),
                    ));
                }
                return Err(RunFailure { kind: k, ply: i });
            },
            Ok(v) => {
                nodes.push(AnnotatedNode { mv: moves[i], verdict: v, comment: String::new() });
            },
        }
        i += 1;
    }
    proof {
        assert(run_result_ok(moves@, params, events@, nodes@));
    }
    Ok(nodes)
}

/// The verdicts of a clean run correlate first-in first-out: the node
/// at each ply carries a verdict whose id is that ply's index, for
/// every run length.
pub proof fn lemma_run_ids_match(
    moves: Seq<Move>,
    params: QueryConfig,
    events: Seq<StreamEvent>,
    nodes: Seq<AnnotatedNode>,
)
    requires
        run_result_ok(moves, params, events, nodes),
    ensures
        forall|i: int| 0 <= i < nodes.len() ==> #[trigger] nodes[i]@.verdict.id == i,
{
    assert forall|i: int| 0 <= i < nodes.len() implies #[trigger] nodes[i]@.verdict.id == i by {
        assert(event_outcome(events[i], i as nat, params) == Ok::<VerdictSpec, ErrorKind>(
            nodes[i]@.verdict,
        ));
        match events[i] {
            StreamEvent::Line(line) => {
                crate::verdict::lemma_interpret_id(
                    line@,
                    i as nat,
                    params.include_policy,
                    params.include_ownership,
                );
            },
            StreamEvent::Broken => {},
            StreamEvent::TimedOut => {},
        }
    }
}

} // verus!
