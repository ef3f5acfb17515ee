//! Verdicts: what a response line means for the query that produced it.
//! Fractional engine outputs are carried in millionths, so a winrate of
//! one half is five hundred thousand.
use vstd::prelude::*;
use crate::model::{ErrorKind, Vertex};
use crate::coords::vertex_of_seq;
use crate::numfmt::dec_seq;
use crate::parse::{JVal, RawFields, parse_line};

verus! {

/// A structured engine verdict for one query.
#[derive(Debug)]
pub struct AnalysisVerdict {
    /// The ply index the verdict answers; equals the query's id.
    pub id: u64,
    /// Winrate for the player to move, in millionths of one.
    pub winrate_micros: i64,
    /// Score lead in millionths of a point.
    pub score_lead_micros: i64,
    /// Search effort the engine reported spending.
    pub visits: u64,
    /// The engine's best continuation, when policy output was requested.
    pub suggested: Option<Vertex>,
    /// Per-point ownership in millionths, when ownership was requested.
    pub ownership: Option<Vec<i64>>,
}

/// The mathematical shape of a verdict.
pub ghost struct VerdictSpec {
    pub id: nat,
    pub winrate_micros: int,
    pub score_lead_micros: int,
    pub visits: nat,
    pub suggested: Option<Vertex>,
    pub ownership: Option<Seq<int>>,
}

impl View for AnalysisVerdict {
    type V = VerdictSpec;

    open spec fn view(&self) -> VerdictSpec {
        VerdictSpec {
            id: self.id as nat,
            winrate_micros: self.winrate_micros as int,
            score_lead_micros: self.score_lead_micros as int,
            visits: self.visits as nat,
            suggested: self.suggested,
            ownership: match self.ownership {
                Some(v) => Some(v@.map_values(|x: i64| x as int)),
                None => None,
            },
        }
    }
}

/// True when the field holds the string form of the expected id.
pub open spec fn id_matches(v: Option<JVal>, expect: nat) -> bool {
    match v {
        Some(JVal::S(t)) => t == dec_seq(expect),
        _ => false,
    }
}

/// A core numeric field: always required, so absence is an incomplete
/// verdict and a non-number is a protocol violation.
pub open spec fn core_num(v: Option<JVal>) -> Result<int, ErrorKind> {
    match v {
        None => Err(ErrorKind::IncompleteVerdict),
        Some(JVal::N(x)) => Ok(x),
        Some(_) => Err(ErrorKind::ProtocolViolation),
    }
}

/// The suggested continuation: required exactly when policy output was
/// requested; when present it must be a readable vertex text.
pub open spec fn opt_vertex(v: Option<JVal>, wanted: bool) -> Result<Option<Vertex>, ErrorKind> {
    match v {
        None => if wanted {
            Err(ErrorKind::IncompleteVerdict)
        } else {
            Ok(None)
        },
        Some(JVal::S(t)) => match vertex_of_seq(t) {
            Some(vx) => Ok(Some(vx)),
            None => Err(ErrorKind::ProtocolViolation),
        },
        Some(_) => Err(ErrorKind::ProtocolViolation),
    }
}

/// The ownership grid: required exactly when ownership output was
/// requested; when present it must be an array of numbers.
pub open spec fn opt_grid(v: Option<JVal>, wanted: bool) -> Result<Option<Seq<int>>, ErrorKind> {
    match v {
        None => if wanted {
            Err(ErrorKind::IncompleteVerdict)
        } else {
            Ok(None)
        },
        Some(JVal::A(xs)) => Ok(Some(xs)),
        Some(_) => Err(ErrorKind::ProtocolViolation),
    }
}

/// What the fields of a parsed response line mean for the query with id
/// `expect`: the verdict, or the first failure in field order (id, then
/// winrate, score lead, visits, suggested move, ownership grid). An id
/// that is absent or differs is a protocol violation; a visit count
/// must be a non-negative whole number.
pub open spec fn extract_verdict(
    f: RawFields,
    expect: nat,
    include_policy: bool,
    include_ownership: bool,
) -> Result<VerdictSpec, ErrorKind> {
    if !id_matches(f.id, expect) {
        Err(ErrorKind::ProtocolViolation)
    } else {
        match core_num(f.winrate) {
            Err(k) => Err(k),
            Ok(w) => match core_num(f.score_lead) {
                Err(k) => Err(k),
                Ok(sl) => match core_num(f.visits) {
                    Err(k) => Err(k),
                    Ok(vs) => if !(vs >= 0 && vs % 1000000 == 0) {
                        Err(ErrorKind::ProtocolViolation)
                    } else {
                        match opt_vertex(f.suggested, include_policy) {
                            Err(k) => Err(k),
                            Ok(sg) => match opt_grid(f.ownership, include_ownership) {
                                Err(k) => Err(k),
                                Ok(og) => Ok(
                                    VerdictSpec {
                                        id: expect,
                                        winrate_micros: w,
                                        score_lead_micros: sl,
                                        visits: (vs / 1000000) as nat,
                                        suggested: sg,
                                        ownership: og,
                                    },
                                ),
                            },
                        }
                    },
                },
            },
        }
    }
}

/// What a raw response line means for the query with id `expect`: a
/// line outside the response grammar is a protocol violation; otherwise
/// its fields are read as `extract_verdict` says.
pub open spec fn interpret_response(
    line: Seq<char>,
    expect: nat,
    include_policy: bool,
    include_ownership: bool,
) -> Result<VerdictSpec, ErrorKind> {
    match parse_line(line) {
        None => Err(ErrorKind::ProtocolViolation),
        Some(f) => extract_verdict(f, expect, include_policy, include_ownership),
    }
}

/// A verdict is only ever produced for the id it was awaited under:
/// whenever a line is accepted for the query with id `expect`, the
/// verdict carries exactly that id.
pub proof fn lemma_interpret_id(line: Seq<char>, expect: nat, ip: bool, io: bool)
    requires
        interpret_response(line, expect, ip, io) is Ok,
    ensures
        interpret_response(line, expect, ip, io)->Ok_0.id == expect,
{
}

/// A response whose id is absent or differs from the awaited one is
/// never accepted, whatever else it carries: it always denotes a
/// protocol violation.
pub proof fn lemma_mismatched_id_rejected(line: Seq<char>, expect: nat, ip: bool, io: bool)
    requires
        match parse_line(line) {
            Some(f) => !id_matches(f.id, expect),
            None => true,
        },
    ensures
        interpret_response(line, expect, ip, io) == Err::<VerdictSpec, ErrorKind>(
            ErrorKind::ProtocolViolation,
        ),
{
}

} // verus!
