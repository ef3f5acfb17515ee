//! Query encoding: rendering one analysis request per position as a
//! protocol line — a single JSON object followed by exactly one
//! newline. The analysis parameters come from configuration and are
//! authoritative; nothing is overridden with built-in values.
use vstd::prelude::*;
use crate::coords::{push_vertex, vertex_seq};
use crate::model::{ErrorKind, Move, Player, move_in_bounds};
use crate::numfmt::dec_seq;

verus! {

/// The analysis parameters a session threads into every query.
pub struct QueryConfig {
    /// Scoring rules name, a plain token (no quotes, backslashes or
    /// line breaks), e.g. `chinese`.
    pub rules: String,
    /// Komi in half points: fifteen denotes seven and a half.
    pub komi_halves: i32,
    /// Board width, at most nineteen for the letter coordinates.
    pub board_x: u8,
    /// Board height, at most nineteen.
    pub board_y: u8,
    /// Visit budget per query.
    pub max_visits: u32,
    /// Ask for the engine's suggested continuation.
    pub include_policy: bool,
    /// Ask for the per-point ownership grid.
    pub include_ownership: bool,
}

/// True for text that can stand inside a JSON string unescaped without
/// breaking the framing.
pub open spec fn json_plain(s: Seq<char>) -> bool {
    forall|i: int|
        0 <= i < s.len() ==> #[trigger] s[i] != '"' && s[i] != '\\' && s[i] != '\n' && s[i]
            != '\r'
}

/// A well-formed configuration: a board the letter coordinates cover,
/// a komi magnitude that is representable, and a plain rules token.
pub open spec fn config_wf(c: QueryConfig) -> bool {
    1 <= c.board_x <= 19 && 1 <= c.board_y <= 19 && c.komi_halves > i32::MIN && json_plain(
        c.rules@,
    )
}

/// The wire text of a non-negative komi magnitude in half points.
pub open spec fn komi_mag(k: nat) -> Seq<char> {
    dec_seq(k / 2) + if k % 2 == 1 {
        ".5"@
    } else {
        Seq::<char>::empty()
    }
}

/// The wire text of a komi in half points.
pub open spec fn komi_seq(h: int) -> Seq<char> {
    if h < 0 {
        "-"@ + komi_mag((-h) as nat)
    } else {
        komi_mag(h as nat)
    }
}

/// The wire text of a boolean.
pub open spec fn bool_seq(b: bool) -> Seq<char> {
    if b {
        "true"@
    } else {
        "false"@
    }
}

/// The wire text of a player's color.
pub open spec fn color_seq(p: Player) -> Seq<char> {
    match p {
        Player::Black => "B"@,
        Player::White => "W"@,
    }
}

/// The wire text of one move entry: a two-element array of color and
/// vertex.
pub open spec fn move_entry_seq(m: Move) -> Seq<char> {
    "[\""@ + color_seq(m.player) + "\",\""@ + vertex_seq(m.vertex) + "\"]"@
}

/// The wire text of a move list: entries in order, separated by commas.
pub open spec fn moves_seq(ms: Seq<Move>) -> Seq<char>
    decreases ms.len(),
{
    if ms.len() == 0 {
        Seq::<char>::empty()
    } else if ms.len() == 1 {
        move_entry_seq(ms[0])
    } else {
        moves_seq(ms.drop_last()) + ","@ + move_entry_seq(ms.last())
    }
}

/// The whole protocol line for query `id` over the move prefix `ms`
/// with parameters `c`, newline included.
pub open spec fn query_line_seq(id: nat, ms: Seq<Move>, c: QueryConfig) -> Seq<char> {
    "{\"id\":\""@ + dec_seq(id) + "\",\"moves\":["@ + moves_seq(ms) + "],\"rules\":\""@ + c.rules@
        + "\",\"komi\":"@ + komi_seq(c.komi_halves as int) + ",\"boardXSize\":"@ + dec_seq(
        c.board_x as nat,
    ) + ",\"boardYSize\":"@ + dec_seq(c.board_y as nat) + ",\"maxVisits\":"@ + dec_seq(
        c.max_visits as nat,
    ) + ",\"includePolicy\":"@ + bool_seq(c.include_policy) + ",\"includeOwnership\":"@
        + bool_seq(c.include_ownership) + "}\n"@
}

/// True when every move of the prefix fits the configured board.
pub open spec fn moves_fit(ms: Seq<Move>, c: QueryConfig) -> bool {
    forall|i: int| 0 <= i < ms.len() ==> move_in_bounds(#[trigger] ms[i], c.board_x, c.board_y)
}

/// Appends the komi text for `h` half points.
fn push_komi(out: &mut String, h: i32)
    requires
        h > i32::MIN,
    ensures
        final(out)@ == old(out)@ + komi_seq(h as int),
{
    if h < 0 {
        out.append("-");
    }
    let mag: u32 = if h < 0 {
        (-h) as u32
    } else {
        h as u32
    };
    crate::numfmt::push_dec(out, (mag / 2) as u64);
    if mag % 2 == 1 {
        out.append(".5");
    }
    proof {
        assert(out@ =~= old(out)@ + komi_seq(h as int));
    }
}

/// Appends the color letter of a player.
fn push_color(out: &mut String, p: Player)
    ensures
        final(out)@ == old(out)@ + color_seq(p),
{
    match p {
        Player::Black => out.append("B"),
        Player::White => out.append("W"),
    }
}

/// Appends the wire text of a boolean.
fn push_bool(out: &mut String, b: bool)
    ensures
        final(out)@ == old(out)@ + bool_seq(b),
{
    if b {
        out.append("true");
    } else {
        out.append("false");
    }
}

/// Renders the protocol request line for query `id` over the move
/// prefix: succeeds with the exact line text when every move fits the
/// configured board, and fails with `CoordinateOutOfRange` otherwise.
pub fn encode_query(id: u64, moves: &Vec<Move>, c: &QueryConfig) -> (r: Result<String, ErrorKind>)
    requires
        config_wf(*c),
    ensures
        match r {
            Ok(s) => moves_fit(moves@, *c) && s@ == query_line_seq(id as nat, moves@, *c),
            Err(k) => k == ErrorKind::CoordinateOutOfRange && !moves_fit(moves@, *c),
        },
{
    let mut out = String::new();
    out.append("{\"id\":\"");
    crate::numfmt::push_dec(&mut out, id);
    out.append("\",\"moves\":[");
    let ghost base = out@;
    let mut j: usize = 0;
    proof {
        assert(moves@.subrange(0, 0) =~= Seq::<Move>::empty());
    }
    while j < moves.len()
        invariant
            j <= moves@.len(),
            config_wf(*c),
            forall|q: int|
                0 <= q < j ==> move_in_bounds(#[trigger] moves@[q], c.board_x, c.board_y),
            out@ == base + moves_seq(moves@.subrange(0, j as int)),
        decreases moves@.len() - j,
    {
        let m = moves[j];
        if !crate::linearize::move_fits(&m, c.board_x, c.board_y) {
            proof {
                assert(!move_in_bounds(moves@[j as int], c.board_x, c.board_y));
            }
            return Err(ErrorKind::CoordinateOutOfRange);
        }
        if j > 0 {
            out.append(",");
        }
        out.append("[\"");
        push_color(&mut out, m.player);
        out.append("\",\"");
        push_vertex(&mut out, m.vertex);
        out.append("\"]");
        proof {
            let pre = moves@.subrange(0, j as int);
            let cur = moves@.subrange(0, j + 1);
            assert(cur.drop_last() =~= pre);
            assert(cur.last() == moves@[j as int]);
            assert(out@ =~= base + moves_seq(cur));
        }
        j += 1;
    }
    proof {
        assert(moves@.subrange(0, moves@.len() as int) =~= moves@);
    }
    out.append("],\"rules\":\"");
    out.append(c.rules.as_str());
    out.append("\",\"komi\":");
    push_komi(&mut out, c.komi_halves);
    out.append(",\"boardXSize\":");
    crate::numfmt::push_dec(&mut out, c.board_x as u64);
    out.append(",\"boardYSize\":");
    crate::numfmt::push_dec(&mut out, c.board_y as u64);
    out.append(",\"maxVisits\":");
    crate::numfmt::push_dec(&mut out, c.max_visits as u64);
    out.append(",\"includePolicy\":");
    push_bool(&mut out, c.include_policy);
    out.append(",\"includeOwnership\":");
    push_bool(&mut out, c.include_ownership);
    out.append("}\n");
    proof {
        assert(out@ =~= query_line_seq(id as nat, moves@, *c));
    }
    Ok(out)
}

/// One analysis request, ready for the wire: the query id (the ply
/// index, stringified on the wire), the move prefix through that ply,
/// and the analysis parameters the session was configured with.
pub struct AnalysisQuery {
    pub id: u64,
    pub moves_so_far: Vec<Move>,
    pub params: QueryConfig,
}

/// True when two parameter values agree field for field.
pub open spec fn params_agree(a: QueryConfig, b: QueryConfig) -> bool {
    a.rules@ == b.rules@ && a.komi_halves == b.komi_halves && a.board_x == b.board_x && a.board_y
        == b.board_y && a.max_visits == b.max_visits && a.include_policy == b.include_policy
        && a.include_ownership == b.include_ownership
}

/// Copies the analysis parameters; the copy agrees with the original.
fn clone_params(c: &QueryConfig) -> (r: QueryConfig)
    ensures
        params_agree(r, *c),
{
    QueryConfig {
        rules: c.rules.clone(),
        komi_halves: c.komi_halves,
        board_x: c.board_x,
        board_y: c.board_y,
        max_visits: c.max_visits,
        include_policy: c.include_policy,
        include_ownership: c.include_ownership,
    }
}

/// Copies a move prefix.
fn copy_moves(ms: &Vec<Move>) -> (r: Vec<Move>)
    ensures
        r@ == ms@,
{
    let mut out: Vec<Move> = Vec::new();
    let mut i: usize = 0;
    while i < ms.len()
        invariant
            i <= ms@.len(),
            out@ == ms@.subrange(0, i as int),
        decreases ms@.len() - i,
    {
        out.push(ms[i]);
        proof {
            assert(out@ =~= ms@.subrange(0, i + 1));
        }
        i += 1;
    }
    proof {
        assert(ms@.subrange(0, ms@.len() as int) =~= ms@);
    }
    out
}

/// Builds the query for ply `ply`: its id is the ply index, its moves
/// are the given prefix, its parameters come from the configuration
/// unchanged.
pub fn make_query(ply: u64, prefix: &Vec<Move>, c: &QueryConfig) -> (q: AnalysisQuery)
    ensures
        q.id == ply,
        q.moves_so_far@ == prefix@,
        params_agree(q.params, *c),
{
    AnalysisQuery { id: ply, moves_so_far: copy_moves(prefix), params: clone_params(c) }
}

/// Agreeing parameters leave every wire judgement unchanged: the same
/// prefix fits both or neither, and the rendered line is the same.
pub proof fn lemma_params_agree_same_wire(id: nat, ms: Seq<Move>, a: QueryConfig, b: QueryConfig)
    requires
        params_agree(a, b),
    ensures
        config_wf(a) == config_wf(b),
        moves_fit(ms, a) == moves_fit(ms, b),
        query_line_seq(id, ms, a) == query_line_seq(id, ms, b),
{
    if moves_fit(ms, a) {
        assert forall|i: int| 0 <= i < ms.len() implies move_in_bounds(
            #[trigger] ms[i],
            b.board_x,
            b.board_y,
        ) by {
            assert(move_in_bounds(ms[i], a.board_x, a.board_y));
        }
    }
    if moves_fit(ms, b) {
        assert forall|i: int| 0 <= i < ms.len() implies move_in_bounds(
            #[trigger] ms[i],
            a.board_x,
            a.board_y,
        ) by {
            assert(move_in_bounds(ms[i], b.board_x, b.board_y));
        }
    }
    assert(query_line_seq(id, ms, a) =~= query_line_seq(id, ms, b));
}

/// Renders a query's exact protocol line; fails with
/// `CoordinateOutOfRange` exactly when a move does not fit the board.
pub fn query_wire_line(q: &AnalysisQuery) -> (r: Result<String, ErrorKind>)
    requires
        config_wf(q.params),
    ensures
        match r {
            Ok(s) => moves_fit(q.moves_so_far@, q.params) && s@ == query_line_seq(
                q.id as nat,
                q.moves_so_far@,
                q.params,
            ),
            Err(k) => k == ErrorKind::CoordinateOutOfRange && !moves_fit(
                q.moves_so_far@,
                q.params,
            ),
        },
{
    encode_query(q.id, &q.moves_so_far, &q.params)
}

} // verus!
