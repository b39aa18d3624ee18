//! What holds of executions run one after another against a store that no
//! one else writes: the engine's transitions, answered as such a store answers.
use vstd::prelude::*;
use crate::command::{argv_command, frames_command, CommandView};
use crate::frame::{frame_int, frame_string, Frame};
use crate::decimal::{encode_spec, in_i64, lemma_parse_encode, parse_i64_spec};
use crate::engine::{
    incr_result, next, start_state, ActionView, Backend, EventView, ExecError, ExecState, Outcome,
};

verus! {

/// Feeds the engine the answers of a store that no one else writes, where
/// `store` is the value at the command's key as the execution sees it, until the
/// engine replies or `fuel` runs out. Gives the reply and the value afterwards.
pub open spec fn drive(s: ExecState, ev: EventView, store: Option<Seq<u8>>, fuel: nat) -> (
    Outcome,
    Option<Seq<u8>>,
)
    decreases fuel,
{
    let (s2, a) = next(s, ev);
    if fuel == 0 {
        match a {
            ActionView::Respond(o) => (o, store),
            _ => (Outcome::Failed(ExecError::BackendUnavailable), store),
        }
    } else {
        match a {
            ActionView::Respond(o) => (o, store),
            ActionView::Get(_) => drive(s2, EventView::Value(store), store, (fuel - 1) as nat),
            ActionView::RawGet(_) => drive(s2, EventView::Value(store), store, (fuel - 1) as nat),
            ActionView::Put(_, v) => drive(s2, EventView::Written, Some(v), (fuel - 1) as nat),
            ActionView::Commit => drive(s2, EventView::Committed, store, (fuel - 1) as nat),
            ActionView::Rollback => drive(s2, EventView::RolledBack, store, (fuel - 1) as nat),
            ActionView::RawCas(_, p, v) => if p == store {
                drive(s2, EventView::Swapped(true), Some(v), (fuel - 1) as nat)
            } else {
                drive(s2, EventView::Swapped(false), store, (fuel - 1) as nat)
            },
        }
    }
}

/// One execution of `command` against a store that no one else writes.
pub open spec fn run_one(command: CommandView, backend: Backend, shared_txn: bool, store: Option<
    Seq<u8>,
>) -> (Outcome, Option<Seq<u8>>) {
    drive(start_state(command, backend, shared_txn), EventView::Begin, store, 4)
}

/// Executions of `commands` on one key, one after another: their replies and the
/// value afterwards.
pub open spec fn run_all(commands: Seq<CommandView>, backend: Backend, shared_txn: bool, store: Option<
    Seq<u8>,
>) -> (Seq<Outcome>, Option<Seq<u8>>)
    decreases commands.len(),
{
    if commands.len() == 0 {
        (Seq::empty(), store)
    } else {
        let (replies, before) = run_all(commands.drop_last(), backend, shared_txn, store);
        let (o, after) = run_one(commands.last(), backend, shared_txn, before);
        (replies.push(o), after)
    }
}

/// What one valid execution does, in either mode: it replies with the result
/// of the increment and, where that is a value, stores its decimal text;
/// otherwise the stored value stays as it was.
pub proof fn lemma_run_one(command: CommandView, backend: Backend, shared_txn: bool, store: Option<Seq<u8>>)
    requires
        command.valid,
    ensures
        run_one(command, backend, shared_txn, store) == match incr_result(store, command.step) {
            Ok(n) => (Outcome::Value(n), Some(encode_spec(n as int))),
            Err(e) => (Outcome::Failed(e), store),
        },
{
    reveal_with_fuel(drive, 5);
}

/// An increment of an absent key replies with the step and stores the step.
pub proof fn lemma_increment_absent(command: CommandView, backend: Backend, shared_txn: bool)
    requires
        command.valid,
    ensures
        run_one(command, backend, shared_txn, None) == (
            Outcome::Value(command.step),
            Some(encode_spec(command.step as int)),
        ),
{
    lemma_run_one(command, backend, shared_txn, None);
}

/// Two increments of an absent key, one after the other, reply second with the
/// sum of the steps and leave the sum stored, where the sum is in range.
pub proof fn lemma_increment_twice(key: Seq<char>, step1: i64, step2: i64, backend: Backend, shared_txn: bool)
    requires
        in_i64(step1 + step2),
    ensures
        ({
            let c1 = CommandView { key, step: step1, valid: true };
            let c2 = CommandView { key, step: step2, valid: true };
            let (_, between) = run_one(c1, backend, shared_txn, None);
            run_one(c2, backend, shared_txn, between) == (
                Outcome::Value((step1 + step2) as i64),
                Some(encode_spec(step1 + step2)),
            )
        }),
{
    let c1 = CommandView { key, step: step1, valid: true };
    let c2 = CommandView { key, step: step2, valid: true };
    lemma_increment_absent(c1, backend, shared_txn);
    lemma_parse_encode(step1 as int);
    lemma_run_one(c2, backend, shared_txn, Some(encode_spec(step1 as int)));
}

/// A malformed argument list, however often it is validated, gives the invalid
/// command.
pub proof fn lemma_malformed_invalid(argv: Seq<Seq<char>>, single_step: bool)
    requires
        if single_step {
            argv.len() != 1
        } else {
            argv.len() != 2 || parse_i64_spec(vstd::utf8::encode_utf8(argv[1])) is None
        },
    ensures
        !argv_command(argv, single_step).valid,
{
}

/// Validating string frames gives the same command as validating the argument
/// list of their texts, whatever the number of frames.
pub proof fn lemma_frames_agree_with_argv(frames: Seq<Frame>, argv: Seq<Seq<char>>, single_step: bool)
    requires
        frames.len() == argv.len(),
        forall|i: int| 0 <= i < frames.len() ==> frame_string(#[trigger] frames[i]) == Some(argv[i]),
        forall|i: int|
            0 <= i < frames.len() ==> frame_int(#[trigger] frames[i]) == parse_i64_spec(
                vstd::utf8::encode_utf8(argv[i]),
            ),
    ensures
        frames_command(frames, single_step) == argv_command(argv, single_step),
{
    if frames.len() >= 1 {
        assert(frame_string(frames[0]) == Some(argv[0]));
    }
    if frames.len() == 2 {
        assert(frame_int(frames[1]) == parse_i64_spec(vstd::utf8::encode_utf8(argv[1])));
    }
}

/// An invalid command replies that its arguments are invalid and leaves the
/// stored value as it was.
pub proof fn lemma_invalid_untouched(command: CommandView, backend: Backend, shared_txn: bool, store: Option<Seq<u8>>)
    requires
        !command.valid,
    ensures
        run_one(command, backend, shared_txn, store) == (Outcome::InvalidArguments, store),
{
    reveal_with_fuel(drive, 2);
}

/// An increment of a key that holds a value that is not a decimal 64-bit
/// integer replies with a type conflict and leaves the value as it was, in either
/// mode.
pub proof fn lemma_type_conflict_untouched(command: CommandView, backend: Backend, shared_txn: bool, stored: Seq<u8>)
    requires
        command.valid,
        parse_i64_spec(stored) is None,
    ensures
        run_one(command, backend, shared_txn, Some(stored)) == (
            Outcome::Failed(ExecError::TypeConflict),
            Some(stored),
        ),
{
    lemma_run_one(command, backend, shared_txn, Some(stored));
}

/// A positive increment of a key that holds the largest 64-bit integer replies
/// with an overflow and leaves that value stored.
pub proof fn lemma_overflow_at_max(command: CommandView, backend: Backend, shared_txn: bool)
    requires
        command.valid,
        command.step > 0,
    ensures
        run_one(command, backend, shared_txn, Some(encode_spec(i64::MAX as int))) == (
            Outcome::Failed(ExecError::RangeOverflow),
            Some(encode_spec(i64::MAX as int)),
        ),
{
    lemma_parse_encode(i64::MAX as int);
    lemma_run_one(command, backend, shared_txn, Some(encode_spec(i64::MAX as int)));
}

/// Two increments that share one transaction, run one after the other in either
/// order on an absent key, both end with the sum of the steps replied second
/// and stored, where the sum is in range.
pub proof fn lemma_order_irrelevant(key: Seq<char>, step1: i64, step2: i64)
    requires
        in_i64(step1 + step2),
    ensures
        ({
            let c1 = CommandView { key, step: step1, valid: true };
            let c2 = CommandView { key, step: step2, valid: true };
            let b = Backend::Transactional;
            let first = run_all(seq![c1, c2], b, true, None);
            let second = run_all(seq![c2, c1], b, true, None);
            &&& first.0.last() == Outcome::Value((step1 + step2) as i64)
            &&& second.0.last() == Outcome::Value((step1 + step2) as i64)
            &&& first.1 == Some(encode_spec(step1 + step2))
            &&& second.1 == Some(encode_spec(step1 + step2))
        }),
{
    let c1 = CommandView { key, step: step1, valid: true };
    let c2 = CommandView { key, step: step2, valid: true };
    let b = Backend::Transactional;
    lemma_increment_twice(key, step1, step2, b, true);
    lemma_increment_twice(key, step2, step1, b, true);
    reveal_with_fuel(run_all, 3);
    assert(seq![c1, c2].drop_last() =~= seq![c1]);
    assert(seq![c1].drop_last() =~= Seq::<CommandView>::empty());
    assert(seq![c2, c1].drop_last() =~= seq![c2]);
    assert(seq![c2].drop_last() =~= Seq::<CommandView>::empty());
}

/// Two increments that share one transaction, run one after the other in either
/// order on a key that holds an integer, reply first with that integer plus the
/// first step and then with it plus both steps, and leave the latter stored,
/// where all these sums are in range.
pub proof fn lemma_order_irrelevant_from(key: Seq<char>, v0: i64, step1: i64, step2: i64)
    requires
        in_i64(v0 + step1),
        in_i64(v0 + step2),
        in_i64(v0 + step1 + step2),
    ensures
        ({
            let c1 = CommandView { key, step: step1, valid: true };
            let c2 = CommandView { key, step: step2, valid: true };
            let b = Backend::Transactional;
            let store = Some(encode_spec(v0 as int));
            let first = run_all(seq![c1, c2], b, true, store);
            let second = run_all(seq![c2, c1], b, true, store);
            &&& first.0 == seq![
                Outcome::Value((v0 + step1) as i64),
                Outcome::Value((v0 + step1 + step2) as i64),
            ]
            &&& second.0 == seq![
                Outcome::Value((v0 + step2) as i64),
                Outcome::Value((v0 + step1 + step2) as i64),
            ]
            &&& first.1 == Some(encode_spec(v0 + step1 + step2))
            &&& second.1 == Some(encode_spec(v0 + step1 + step2))
        }),
{
    let c1 = CommandView { key, step: step1, valid: true };
    let c2 = CommandView { key, step: step2, valid: true };
    let b = Backend::Transactional;
    let store = Some(encode_spec(v0 as int));
    lemma_parse_encode(v0 as int);
    lemma_parse_encode(v0 + step1);
    lemma_parse_encode(v0 + step2);
    lemma_run_one(c1, b, true, store);
    lemma_run_one(c2, b, true, store);
    lemma_run_one(c2, b, true, Some(encode_spec(v0 + step1)));
    lemma_run_one(c1, b, true, Some(encode_spec(v0 + step2)));
    reveal_with_fuel(run_all, 3);
    assert(seq![c1, c2].drop_last() =~= seq![c1]);
    assert(seq![c1].drop_last() =~= Seq::<CommandView>::empty());
    assert(seq![c2, c1].drop_last() =~= seq![c2]);
    assert(seq![c2].drop_last() =~= Seq::<CommandView>::empty());
    assert(Seq::<Outcome>::empty().push(Outcome::Value((v0 + step1) as i64)).push(
        Outcome::Value((v0 + step1 + step2) as i64),
    ) =~= seq![Outcome::Value((v0 + step1) as i64), Outcome::Value((v0 + step1 + step2) as i64)]);
    assert(Seq::<Outcome>::empty().push(Outcome::Value((v0 + step2) as i64)).push(
        Outcome::Value((v0 + step1 + step2) as i64),
    ) =~= seq![Outcome::Value((v0 + step2) as i64), Outcome::Value((v0 + step1 + step2) as i64)]);
}

/// Any sequence of increments on one key, with no other writer, replies the
/// same and leaves the same value whether the transactional or the raw mode
/// runs it.
pub proof fn lemma_backend_transparent(commands: Seq<CommandView>, shared_txn: bool, store: Option<Seq<u8>>)
    ensures
        run_all(commands, Backend::Transactional, shared_txn, store) == run_all(
            commands,
            Backend::Raw,
            shared_txn,
            store,
        ),
    decreases commands.len(),
{
    if commands.len() > 0 {
        lemma_backend_transparent(commands.drop_last(), shared_txn, store);
        let (_, before) = run_all(commands.drop_last(), Backend::Raw, shared_txn, store);
        let c = commands.last();
        if c.valid {
            lemma_run_one(c, Backend::Transactional, shared_txn, before);
            lemma_run_one(c, Backend::Raw, shared_txn, before);
        } else {
            lemma_invalid_untouched(c, Backend::Transactional, shared_txn, before);
            lemma_invalid_untouched(c, Backend::Raw, shared_txn, before);
        }
    }
}

} // verus!
