//! The execution engine of a counter increment, as a state machine.
//!
//! A driver creates an [`Execution`] for a command, then calls [`Execution::step`]
//! with [`Event::Begin`] and, after each [`Action`] it performs against the store,
//! with the store's answer, until the action is [`Action::Respond`]. The engine
//! decides everything: which backend calls to make, what to write, when to commit
//! or roll back, and what the command replies. It never retries by itself.
use vstd::prelude::*;
use crate::command::{CommandView, IncrBy};
use crate::decimal::{encode_i64, encode_spec, in_i64, parse_i64, parse_i64_spec};

verus! {

/// A failure of one execution.
#[derive(Debug, Clone, Copy, PartialEq, Eq, Structural)]
pub enum ExecError {
    /// The key holds a value that is not a decimal 64-bit integer.
    TypeConflict,
    /// The new value would not fit in a signed 64-bit integer.
    RangeOverflow,
    /// Another writer changed the key first; the caller may retry.
    Conflict,
    /// The store could not be reached or failed.
    BackendUnavailable,
}

/// What one execution replies.
#[derive(Debug, Clone, Copy, PartialEq, Eq, Structural)]
pub enum Outcome {
    /// The command's arguments were malformed; the store was not touched.
    InvalidArguments,
    /// The counter's new value.
    Value(i64),
    Failed(ExecError),
}

/// The backend mode an execution runs in.
#[derive(Debug, Clone, Copy, PartialEq, Eq, Structural)]
pub enum Backend {
    /// Multi-key transactions with snapshot reads and commit or rollback.
    Transactional,
    /// Single-key atomic operations: a read, then a compare-and-swap that writes
    /// the new value only if the key still holds what was read. The store's raw
    /// API offers no atomic add, so this pair is its one atomic update; where
    /// another writer got in between, the swap fails and the execution replies
    /// with a conflict for the caller to retry, as a lost transactional commit
    /// does.
    Raw,
}

#[derive(Debug, Clone, Copy, PartialEq, Eq, Structural)]
pub enum Phase {
    Start,
    Reading,
    Writing,
    Committing,
    RollingBack,
    RawReading,
    Swapping,
    Done,
}

/// The store's answer to the last action, or the signal to begin.
#[derive(Debug)]
pub enum Event {
    Begin,
    /// The value read at the key; `None` where the key is absent.
    Value(Option<Vec<u8>>),
    Written,
    Committed,
    CommitConflict,
    RolledBack,
    /// Whether the compare-and-swap found the expected value and wrote.
    Swapped(bool),
    BackendFailed,
}

/// What the driver does next.
#[derive(Debug)]
pub enum Action {
    /// Reply with this outcome; the execution is over.
    Respond(Outcome),
    /// Read the key within the transaction.
    Get(String),
    /// Write the value at the key within the transaction.
    Put(String, Vec<u8>),
    Commit,
    Rollback,
    /// Read the key through the raw API.
    RawGet(String),
    /// Atomically write the value at the key if it still holds the expected one
    /// (`None`: absent).
    RawCas(String, Option<Vec<u8>>, Vec<u8>),
}

pub enum EventView {
    Begin,
    Value(Option<Seq<u8>>),
    Written,
    Committed,
    CommitConflict,
    RolledBack,
    Swapped(bool),
    BackendFailed,
}

pub enum ActionView {
    Respond(Outcome),
    Get(Seq<char>),
    Put(Seq<char>, Seq<u8>),
    Commit,
    Rollback,
    RawGet(Seq<char>),
    RawCas(Seq<char>, Option<Seq<u8>>, Seq<u8>),
}

pub open spec fn bytes_view(o: Option<Vec<u8>>) -> Option<Seq<u8>> {
    match o {
        Some(v) => Some(v@),
        None => None,
    }
}

impl View for Event {
    type V = EventView;

    open spec fn view(&self) -> EventView {
        match self {
            Event::Begin => EventView::Begin,
            Event::Value(v) => EventView::Value(bytes_view(*v)),
            Event::Written => EventView::Written,
            Event::Committed => EventView::Committed,
            Event::CommitConflict => EventView::CommitConflict,
            Event::RolledBack => EventView::RolledBack,
            Event::Swapped(b) => EventView::Swapped(*b),
            Event::BackendFailed => EventView::BackendFailed,
        }
    }
}

impl View for Action {
    type V = ActionView;

    open spec fn view(&self) -> ActionView {
        match self {
            Action::Respond(o) => ActionView::Respond(*o),
            Action::Get(k) => ActionView::Get(k@),
            Action::Put(k, v) => ActionView::Put(k@, v@),
            Action::Commit => ActionView::Commit,
            Action::Rollback => ActionView::Rollback,
            Action::RawGet(k) => ActionView::RawGet(k@),
            Action::RawCas(k, p, v) => ActionView::RawCas(k@, bytes_view(*p), v@),
        }
    }
}

/// The result of adding `delta` to the value stored at a key: an absent key
/// counts as zero, a value that is not a decimal 64-bit integer is a type
/// conflict, and a sum out of range is an overflow.
pub open spec fn incr_result(stored: Option<Seq<u8>>, delta: i64) -> Result<i64, ExecError> {
    match stored {
        None => Ok(delta),
        Some(b) => match parse_i64_spec(b) {
            None => Err(ExecError::TypeConflict),
            Some(cur) => if in_i64(cur + delta) {
                Ok((cur + delta) as i64)
            } else {
                Err(ExecError::RangeOverflow)
            },
        },
    }
}

/// Computes the counter's new value from what the key holds.
pub fn increment_stored(stored: &Option<Vec<u8>>, delta: i64) -> (r: Result<i64, ExecError>)
    ensures
        r == incr_result(bytes_view(*stored), delta),
{
    match stored {
        None => Ok(delta),
        Some(b) => match parse_i64(b.as_slice()) {
            None => Err(ExecError::TypeConflict),
            Some(cur) => match cur.checked_add(delta) {
                Some(n) => Ok(n),
                None => Err(ExecError::RangeOverflow),
            },
        },
    }
}

/// The state of one execution as the engine sees it.
pub struct ExecState {
    pub command: CommandView,
    pub backend: Backend,
    /// Whether the execution opened its own transaction (no caller's transaction
    /// was handed in).
    pub owns_txn: bool,
    pub phase: Phase,
    /// What to reply once the pending backend call is answered.
    pub pending: Outcome,
}

pub open spec fn with_phase(s: ExecState, phase: Phase, pending: Outcome) -> ExecState {
    ExecState { phase, pending, ..s }
}

/// Ends the execution with this reply.
pub open spec fn finish(s: ExecState, o: Outcome) -> (ExecState, ActionView) {
    (with_phase(s, Phase::Done, o), ActionView::Respond(o))
}

/// Ends a failed execution: a transaction the execution opened itself and that
/// is still active is rolled back first; a caller's transaction is left open.
pub open spec fn fail(s: ExecState, e: ExecError) -> (ExecState, ActionView) {
    if s.owns_txn && (s.phase == Phase::Reading || s.phase == Phase::Writing) {
        (with_phase(s, Phase::RollingBack, Outcome::Failed(e)), ActionView::Rollback)
    } else {
        finish(s, Outcome::Failed(e))
    }
}

/// The engine's transition on one event. In the start phase any event begins the
/// execution; in any other phase an event that does not answer the last action
/// counts as a backend failure.
pub open spec fn next(s: ExecState, ev: EventView) -> (ExecState, ActionView) {
    match s.phase {
        Phase::Start => if !s.command.valid {
            finish(s, Outcome::InvalidArguments)
        } else if s.backend == Backend::Transactional {
            (with_phase(s, Phase::Reading, s.pending), ActionView::Get(s.command.key))
        } else {
            (with_phase(s, Phase::RawReading, s.pending), ActionView::RawGet(s.command.key))
        },
        Phase::Reading => match ev {
            EventView::Value(v) => match incr_result(v, s.command.step) {
                Ok(n) => (
                    with_phase(s, Phase::Writing, Outcome::Value(n)),
                    ActionView::Put(s.command.key, encode_spec(n as int)),
                ),
                Err(e) => fail(s, e),
            },
            _ => fail(s, ExecError::BackendUnavailable),
        },
        Phase::Writing => match ev {
            EventView::Written => if s.owns_txn {
                (with_phase(s, Phase::Committing, s.pending), ActionView::Commit)
            } else {
                finish(s, s.pending)
            },
            _ => fail(s, ExecError::BackendUnavailable),
        },
        Phase::Committing => match ev {
            EventView::Committed => finish(s, s.pending),
            EventView::CommitConflict => finish(s, Outcome::Failed(ExecError::Conflict)),
            _ => fail(s, ExecError::BackendUnavailable),
        },
        Phase::RollingBack => finish(s, s.pending),
        Phase::RawReading => match ev {
            EventView::Value(v) => match incr_result(v, s.command.step) {
                Ok(n) => (
                    with_phase(s, Phase::Swapping, Outcome::Value(n)),
                    ActionView::RawCas(s.command.key, v, encode_spec(n as int)),
                ),
                Err(e) => fail(s, e),
            },
            _ => fail(s, ExecError::BackendUnavailable),
        },
        Phase::Swapping => match ev {
            EventView::Swapped(true) => finish(s, s.pending),
            EventView::Swapped(false) => finish(s, Outcome::Failed(ExecError::Conflict)),
            _ => fail(s, ExecError::BackendUnavailable),
        },
        Phase::Done => (s, ActionView::Respond(s.pending)),
    }
}

/// The state in which an execution of `command` starts.
pub open spec fn start_state(command: CommandView, backend: Backend, shared_txn: bool) -> ExecState {
    ExecState {
        command,
        backend,
        owns_txn: !shared_txn,
        phase: Phase::Start,
        pending: Outcome::InvalidArguments,
    }
}

/// One execution of a counter increment.
pub struct Execution {
    command: IncrBy,
    backend: Backend,
    owns_txn: bool,
    phase: Phase,
    pending: Outcome,
}

impl View for Execution {
    type V = ExecState;

    closed spec fn view(&self) -> ExecState {
        ExecState {
            command: self.command@,
            backend: self.backend,
            owns_txn: self.owns_txn,
            phase: self.phase,
            pending: self.pending,
        }
    }
}

impl Execution {
    /// An execution of `command` in the given backend mode. `shared_txn` says that
    /// the caller hands in a transaction of its own, which the execution then uses
    /// and leaves open; the raw mode ignores it.
    pub fn new(command: IncrBy, backend: Backend, shared_txn: bool) -> (r: Execution)
        ensures
            r@ == start_state(command@, backend, shared_txn),
    {
        Execution { command, backend, owns_txn: !shared_txn, phase: Phase::Start, pending: Outcome::InvalidArguments }
    }

    pub fn is_done(&self) -> (r: bool)
        ensures
            r == (self@.phase == Phase::Done),
    {
        self.phase == Phase::Done
    }

    fn finish(&mut self, o: Outcome) -> (r: Action)
        ensures
            (final(self)@, r@) == finish(old(self)@, o),
    {
        self.phase = Phase::Done;
        self.pending = o;
        Action::Respond(o)
    }

    fn fail(&mut self, e: ExecError) -> (r: Action)
        ensures
            (final(self)@, r@) == fail(old(self)@, e),
    {
        if self.owns_txn && (self.phase == Phase::Reading || self.phase == Phase::Writing) {
            self.phase = Phase::RollingBack;
            self.pending = Outcome::Failed(e);
            Action::Rollback
        } else {
            self.finish(Outcome::Failed(e))
        }
    }

    /// Takes the store's answer to the last action and says what to do next.
    pub fn step(&mut self, ev: Event) -> (r: Action)
        ensures
            (final(self)@, r@) == next(old(self)@, ev@),
    {
        match self.phase {
            Phase::Start => {
                if !self.command.is_valid() {
                    self.finish(Outcome::InvalidArguments)
                } else if self.backend == Backend::Transactional {
                    self.phase = Phase::Reading;
                    Action::Get(self.command.key().to_owned())
                } else {
                    self.phase = Phase::RawReading;
                    Action::RawGet(self.command.key().to_owned())
                }
            },
            Phase::Reading => match ev {
                Event::Value(v) => match increment_stored(&v, self.command.step()) {
                    Ok(n) => {
                        self.phase = Phase::Writing;
                        self.pending = Outcome::Value(n);
                        Action::Put(self.command.key().to_owned(), encode_i64(n))
                    },
                    Err(e) => self.fail(e),
                },
                _ => self.fail(ExecError::BackendUnavailable),
            },
            Phase::Writing => match ev {
                Event::Written => {
                    if self.owns_txn {
                        self.phase = Phase::Committing;
                        Action::Commit
                    } else {
                        let o = self.pending;
                        self.finish(o)
                    }
                },
                _ => self.fail(ExecError::BackendUnavailable),
            },
            Phase::Committing => match ev {
                Event::Committed => {
                    let o = self.pending;
                    self.finish(o)
                },
                Event::CommitConflict => self.finish(Outcome::Failed(ExecError::Conflict)),
                _ => self.fail(ExecError::BackendUnavailable),
            },
            Phase::RollingBack => {
                let o = self.pending;
                self.finish(o)
            },
            Phase::RawReading => match ev {
                Event::Value(v) => match increment_stored(&v, self.command.step()) {
                    Ok(n) => {
                        self.phase = Phase::Swapping;
                        self.pending = Outcome::Value(n);
                        Action::RawCas(self.command.key().to_owned(), v, encode_i64(n))
                    },
                    Err(e) => self.fail(e),
                },
                _ => self.fail(ExecError::BackendUnavailable),
            },
            Phase::Swapping => match ev {
                Event::Swapped(true) => {
                    let o = self.pending;
                    self.finish(o)
                },
                Event::Swapped(false) => self.finish(Outcome::Failed(ExecError::Conflict)),
                _ => self.fail(ExecError::BackendUnavailable),
            },
            Phase::Done => Action::Respond(self.pending),
        }
    }
}

} // verus!
