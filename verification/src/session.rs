//! The engine session's protocol state machine. The session owns the
//! framing discipline — one query in flight at a time, responses
//! correlated first-in first-out — while the byte stream itself lives
//! outside the library: `begin_submit` hands out the exact line to
//! write, and `finish_submit` takes back what the stream produced.
use vstd::prelude::*;
use crate::model::{ErrorKind, Move};
use crate::verdict::{AnalysisVerdict, interpret_response};
use crate::wire::{QueryConfig, config_wf, lemma_params_agree_same_wire, make_query,
    moves_fit, query_line_seq, query_wire_line};

verus! {

/// What the transport produced for one awaited response.
pub enum StreamEvent {
    /// One whole newline-terminated line arrived, given here without
    /// its terminating newline.
    Line(String),
    /// The stream reached end of file or failed.
    Broken,
    /// No line arrived within the configured budget.
    TimedOut,
}

/// The framing states of a session.
#[derive(Clone, Copy, PartialEq, Eq, Structural, Debug)]
pub enum SessionState {
    /// Ready to submit the next query.
    Idle,
    /// Exactly one query is in flight; its response line is owed.
    AwaitingResponse,
    /// The stream can no longer be trusted; the session must not be
    /// reused.
    Faulted,
}

/// What a transport event means for the query with id `expect`.
pub open spec fn event_outcome(ev: StreamEvent, expect: nat, params: QueryConfig) -> Result<
    crate::verdict::VerdictSpec,
    ErrorKind,
> {
    match ev {
        StreamEvent::Line(line) => interpret_response(
            line@,
            expect,
            params.include_policy,
            params.include_ownership,
        ),
        StreamEvent::Broken => Err(ErrorKind::EngineUnavailable),
        StreamEvent::TimedOut => Err(ErrorKind::EngineTimeout),
    }
}

/// An engine session's bookkeeping: the analysis parameters threaded
/// into every query, the framing state, the id the next query will
/// carry (queries are numbered from zero in submission order), and the
/// id of the in-flight query.
pub struct Session {
    pub params: QueryConfig,
    pub state: SessionState,
    pub next_id: u64,
    pub awaiting_id: u64,
}

impl Session {
    /// True when the session's configuration is well formed.
    pub open spec fn wf(self) -> bool {
        config_wf(self.params)
    }

    /// Opens a session over the given parameters; no query has been
    /// submitted yet and none is in flight.
    pub fn new(params: QueryConfig) -> (s: Session)
        requires
            config_wf(params),
        ensures
            s.wf(),
            s.state == SessionState::Idle,
            s.next_id == 0,
            s.params == params,
    {
        Session { params, state: SessionState::Idle, next_id: 0, awaiting_id: 0 }
    }

    /// Starts submitting the query for ply `old(self).next_id` over the
    /// given move prefix. On success the result is the exact protocol
    /// line to write and the session awaits the matching response. A
    /// faulted session refuses immediately and unchanged, handing out
    /// nothing to write; a prefix that does not fit the board refuses
    /// with `CoordinateOutOfRange` and leaves the session idle.
    pub fn begin_submit(&mut self, prefix: &Vec<Move>) -> (r: Result<String, ErrorKind>)
        requires
            old(self).wf(),
            old(self).state != SessionState::AwaitingResponse,
            old(self).next_id < u64::MAX,
        ensures
            final(self).wf(),
            final(self).params == old(self).params,
            match r {
                Ok(line) => old(self).state == SessionState::Idle
                    && moves_fit(prefix@, old(self).params)
                    && line@ == query_line_seq(old(self).next_id as nat, prefix@, old(self).params)
                    && final(self).state == SessionState::AwaitingResponse
                    && final(self).awaiting_id == old(self).next_id
                    && final(self).next_id == old(self).next_id + 1,
                Err(k) => *final(self) == *old(self)
                    && ((old(self).state == SessionState::Faulted
                        && k == ErrorKind::EngineUnavailable)
                    || (old(self).state == SessionState::Idle
                        && k == ErrorKind::CoordinateOutOfRange
                        && !moves_fit(prefix@, old(self).params))),
            },
    {
        match self.state {
            SessionState::Faulted => Err(ErrorKind::EngineUnavailable),
            _ => {
                let query = make_query(self.next_id, prefix, &self.params);
                proof {
                    lemma_params_agree_same_wire(
                        self.next_id as nat,
                        prefix@,
                        query.params,
                        self.params,
                    );
                }
                match query_wire_line(&query) {
                    Err(k) => Err(k),
                    Ok(line) => {
                        self.awaiting_id = self.next_id;
                        self.next_id = self.next_id + 1;
                        self.state = SessionState::AwaitingResponse;
                        Ok(line)
                    },
                }
            },
        }
    }

    /// Completes the in-flight submission with what the transport
    /// produced. A broken stream is `EngineUnavailable` and an elapsed
    /// budget is `EngineTimeout`; both fault the session. A line is
    /// read under the response grammar against the in-flight id: an
    /// unreadable or miscorrelated line is `ProtocolViolation` and
    /// faults the session, since skipping it would desynchronize every
    /// later query; a readable line lacking a requested field is
    /// `IncompleteVerdict` and leaves the session idle, the correlation
    /// being intact.
    pub fn finish_submit(&mut self, ev: &StreamEvent) -> (r: Result<AnalysisVerdict, ErrorKind>)
        requires
            old(self).wf(),
            old(self).state == SessionState::AwaitingResponse,
        ensures
            final(self).wf(),
            final(self).params == old(self).params,
            final(self).next_id == old(self).next_id,
            match r {
                Ok(v) => event_outcome(*ev, old(self).awaiting_id as nat, old(self).params) == Ok::<
                    crate::verdict::VerdictSpec,
                    ErrorKind,
                >(v@) && final(self).state == SessionState::Idle,
                Err(k) => event_outcome(*ev, old(self).awaiting_id as nat, old(self).params)
                    == Err::<crate::verdict::VerdictSpec, ErrorKind>(k) && final(self).state == (
                if k == ErrorKind::IncompleteVerdict {
                    SessionState::Idle
                } else {
                    SessionState::Faulted
                }),
            },
    {
        match ev {
            StreamEvent::Broken => {
                self.state = SessionState::Faulted;
                Err(ErrorKind::EngineUnavailable)
            },
            StreamEvent::TimedOut => {
                self.state = SessionState::Faulted;
                Err(ErrorKind::EngineTimeout)
            },
            StreamEvent::Line(line) => {
                match crate::reader::interpret_line(
                    line.as_str(),
                    self.awaiting_id,
                    self.params.include_policy,
                    self.params.include_ownership,
                ) {
                    Ok(v) => {
                        self.state = SessionState::Idle;
                        Ok(v)
                    },
                    Err(k) => {
                        if k == ErrorKind::IncompleteVerdict {
                            self.state = SessionState::Idle;
                        } else {
                            self.state = SessionState::Faulted;
                        }
                        Err(k)
                    },
                }
            },
        }
    }
}

} // verus!
