use vstd::prelude::*;
use crate::error::{FetchError, IoKind};
use crate::status::{parse_status_bytes, status_spec};

verus! {

/// Where the reader stands in the response.
#[derive(Clone, Copy, Debug, PartialEq, Eq, Structural)]
pub enum Phase {
    StatusLine,
    Headers,
    Body,
    Failed(FetchError),
}

/// The abstract state of a response reader.
pub struct ReaderState {
    pub phase: Phase,
    /// Bytes of the status or header line read so far.
    pub line: Seq<u8>,
    pub status: u16,
    pub body: Seq<u8>,
}

pub open spec fn crlf() -> Seq<u8> {
    seq![13u8, 10u8]
}

pub open spec fn initial_state() -> ReaderState {
    ReaderState { phase: Phase::StatusLine, line: Seq::empty(), status: 0, body: Seq::empty() }
}

/// The effect of one received byte. Lines end at a line feed; the status
/// line is parsed as soon as it is complete, header lines are skipped until
/// one is exactly CR LF, and every later byte belongs to the body.
pub open spec fn step(s: ReaderState, b: u8) -> ReaderState {
    match s.phase {
        Phase::StatusLine => {
            if b == 10 {
                match status_spec(s.line.push(b)) {
                    Ok(c) => ReaderState {
                        phase: Phase::Headers,
                        line: Seq::empty(),
                        status: c,
                        body: s.body,
                    },
                    Err(e) => ReaderState {
                        phase: Phase::Failed(e),
                        line: Seq::empty(),
                        status: s.status,
                        body: s.body,
                    },
                }
            } else {
                ReaderState { phase: s.phase, line: s.line.push(b), status: s.status, body: s.body }
            }
        },
        Phase::Headers => {
            if b == 10 {
                ReaderState {
                    phase: if s.line.push(b) == crlf() {
                        Phase::Body
                    } else {
                        Phase::Headers
                    },
                    line: Seq::empty(),
                    status: s.status,
                    body: s.body,
                }
            } else {
                ReaderState { phase: s.phase, line: s.line.push(b), status: s.status, body: s.body }
            }
        },
        Phase::Body => ReaderState {
            phase: s.phase,
            line: s.line,
            status: s.status,
            body: s.body.push(b),
        },
        Phase::Failed(_) => s,
    }
}

/// The state after receiving `bytes` in order.
pub open spec fn absorb(s: ReaderState, bytes: Seq<u8>) -> ReaderState
    decreases bytes.len(),
{
    if bytes.len() == 0 {
        s
    } else {
        step(absorb(s, bytes.drop_last()), bytes.last())
    }
}

/// How the received bytes were split into reads does not matter: taking in
/// `a` and then `b` leaves the reader where taking in `a + b` at once does.
pub proof fn lemma_absorb_split(s: ReaderState, a: Seq<u8>, b: Seq<u8>)
    ensures
        absorb(absorb(s, a), b) == absorb(s, a + b),
    decreases b.len(),
{
    if b.len() == 0 {
        assert(a + b =~= a);
    } else {
        lemma_absorb_split(s, a, b.drop_last());
        assert((a + b).drop_last() =~= a + b.drop_last());
        assert((a + b).last() == b.last());
    }
}

/// Read failures inside the body that end this attempt with the bytes so far.
pub open spec fn is_transient(k: IoKind) -> bool {
    k == IoKind::TimedOut || k == IoKind::WouldBlock || k == IoKind::UnexpectedEof
}

/// What the end of the stream means in state `s`: `end` is `None` for a clean
/// close (a zero-byte read) and `Some(kind)` for a read failure. `None` as the
/// result means the failure was an interruption and reading goes on.
pub open spec fn end_spec(s: ReaderState, end: Option<IoKind>) -> Option<Result<(u16, Seq<u8>), FetchError>> {
    match s.phase {
        Phase::Failed(e) => Some(Err(e)),
        _ => match end {
            Some(IoKind::Interrupted) => None,
            None => match s.phase {
                Phase::StatusLine => if s.line.len() == 0 {
                    Some(Err(FetchError::ClosedBeforeStatusLine))
                } else {
                    match status_spec(s.line) {
                        Ok(_) => Some(Err(FetchError::ClosedDuringHeaders)),
                        Err(e) => Some(Err(e)),
                    }
                },
                Phase::Headers => Some(Err(FetchError::ClosedDuringHeaders)),
                _ => Some(Ok((s.status, s.body))),
            },
            Some(k) => match s.phase {
                Phase::Body => if is_transient(k) {
                    Some(Ok((s.status, s.body)))
                } else {
                    Some(Err(FetchError::Io(k)))
                },
                _ => Some(Err(FetchError::Io(k))),
            },
        },
    }
}

/// Once the header block has ended, every further byte joins the body and
/// nothing else changes.
pub proof fn lemma_body_bytes(s: ReaderState, c: Seq<u8>)
    requires
        s.phase == Phase::Body,
    ensures
        absorb(s, c).phase == Phase::Body,
        absorb(s, c).status == s.status,
        absorb(s, c).body == s.body + c,
    decreases c.len(),
{
    if c.len() > 0 {
        lemma_body_bytes(s, c.drop_last());
        assert((s.body + c.drop_last()).push(c.last()) =~= s.body + c);
    } else {
        assert(s.body + c =~= s.body);
    }
}

/// A response whose header block has ended (after the bytes `h`) and whose
/// body reads then bring `c` and end in a timeout, a would-block or an
/// unexpected end of data, yields its status code and all the body bytes
/// received, with no error. Interrupted reads leave the reader unchanged
/// and reading goes on, so they do not alter this.
pub proof fn lemma_partial_body(h: Seq<u8>, c: Seq<u8>, k: IoKind)
    requires
        absorb(initial_state(), h).phase == Phase::Body,
        is_transient(k),
    ensures
        end_spec(absorb(initial_state(), h + c), Some(k)) == Some(
            Ok::<(u16, Seq<u8>), FetchError>(
                (absorb(initial_state(), h).status, absorb(initial_state(), h).body + c),
            ),
        ),
        end_spec(absorb(initial_state(), h + c), Some(IoKind::Interrupted)) is None,
{
    lemma_absorb_split(initial_state(), h, c);
    lemma_body_bytes(absorb(initial_state(), h), c);
}

pub open spec fn view_outcome(r: Option<Result<(u16, Vec<u8>), FetchError>>) -> Option<Result<(u16, Seq<u8>), FetchError>> {
    match r {
        None => None,
        Some(Ok((c, b))) => Some(Ok((c, b@))),
        Some(Err(e)) => Some(Err(e)),
    }
}

/// Reads one response from the bytes of a stream as they arrive.
pub struct ResponseReader {
    phase: Phase,
    line: Vec<u8>,
    status: u16,
    body: Vec<u8>,
}

impl View for ResponseReader {
    type V = ReaderState;

    closed spec fn view(&self) -> ReaderState {
        ReaderState { phase: self.phase, line: self.line@, status: self.status, body: self.body@ }
    }
}

impl ResponseReader {
    pub fn new() -> (r: ResponseReader)
        ensures
            r@ == initial_state(),
    {
        ResponseReader { phase: Phase::StatusLine, line: Vec::new(), status: 0, body: Vec::new() }
    }

    fn push_byte(&mut self, b: u8)
        ensures
            final(self)@ == step(old(self)@, b),
    {
        match self.phase {
            Phase::StatusLine => {
                if b == 10 {
                    self.line.push(b);
                    match parse_status_bytes(self.line.as_slice()) {
                        Ok(c) => {
                            self.phase = Phase::Headers;
                            self.status = c;
                        },
                        Err(e) => {
                            self.phase = Phase::Failed(e);
                        },
                    }
                    self.line = Vec::new();
                } else {
                    self.line.push(b);
                }
            },
            Phase::Headers => {
                if b == 10 {
                    self.line.push(b);
                    let end = self.line.len() == 2 && self.line[0] == 13 && self.line[1] == 10;
                    assert(end == (self.line@ == crlf())) by {
                        if self.line@ == crlf() {
                            assert(self.line@[0] == 13u8);
                        }
                        if end {
                            assert(self.line@ =~= crlf());
                        }
                    }
                    if end {
                        self.phase = Phase::Body;
                    }
                    self.line = Vec::new();
                } else {
                    self.line.push(b);
                }
            },
            Phase::Body => {
                self.body.push(b);
            },
            Phase::Failed(_) => {},
        }
    }

    /// Takes in the next bytes read from the stream. Returns the failure that
    /// ends the response early, if the bytes so far already decide one.
    pub fn on_data(&mut self, chunk: &[u8]) -> (r: Option<FetchError>)
        ensures
            final(self)@ == absorb(old(self)@, chunk@),
            r == (match final(self)@.phase {
                Phase::Failed(e) => Some(e),
                _ => None::<FetchError>,
            }),
    {
        let mut i: usize = 0;
        while i < chunk.len()
            invariant
                i <= chunk@.len(),
                self@ == absorb(old(self)@, chunk@.take(i as int)),
            decreases chunk@.len() - i,
        {
            self.push_byte(chunk[i]);
            assert(chunk@.take(i as int + 1).drop_last() =~= chunk@.take(i as int));
            i = i + 1;
        }
        assert(chunk@.take(i as int) =~= chunk@);
        match self.phase {
            Phase::Failed(e) => Some(e),
            _ => None,
        }
    }

    /// Reports how the stream ended (`None`: a clean close; `Some(kind)`: a
    /// read failure). Returns the outcome of the fetch, or `None` when the
    /// failure was an interruption and reading should go on.
    pub fn on_end(&self, end: Option<IoKind>) -> (r: Option<Result<(u16, Vec<u8>), FetchError>>)
        ensures
            view_outcome(r) == end_spec(self@, end),
    {
        match self.phase {
            Phase::Failed(e) => Some(Err(e)),
            Phase::StatusLine => match end {
                Some(IoKind::Interrupted) => None,
                Some(k) => Some(Err(FetchError::Io(k))),
                None => if self.line.len() == 0 {
                    Some(Err(FetchError::ClosedBeforeStatusLine))
                } else {
                    match parse_status_bytes(self.line.as_slice()) {
                        Ok(_) => Some(Err(FetchError::ClosedDuringHeaders)),
                        Err(e) => Some(Err(e)),
                    }
                },
            },
            Phase::Headers => match end {
                Some(IoKind::Interrupted) => None,
                Some(k) => Some(Err(FetchError::Io(k))),
                None => Some(Err(FetchError::ClosedDuringHeaders)),
            },
            Phase::Body => match end {
                Some(IoKind::Interrupted) => None,
                Some(IoKind::TimedOut) | Some(IoKind::WouldBlock) | Some(IoKind::UnexpectedEof)
                | None => Some(Ok((self.status, self.body.clone()))),
                Some(k) => Some(Err(FetchError::Io(k))),
            },
        }
    }
}

} // verus!
