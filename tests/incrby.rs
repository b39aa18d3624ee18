use incrby::command::IncrBy;
use incrby::decimal::{encode_i64, parse_i64};
use incrby::engine::{increment_stored, Action, Backend, Event, ExecError, Execution, Outcome};
use incrby::frame::{Frame, Parse};
use incrby::reply::reply_frame;

fn args(list: &[&str]) -> Vec<String> {
    list.iter().map(|s| s.to_string()).collect()
}

/// Runs one execution against a single stored value that no one else writes.
fn run(cmd: IncrBy, backend: Backend, shared: bool, store: &mut Option<Vec<u8>>) -> Outcome {
    let mut exec = Execution::new(cmd, backend, shared);
    let mut pending_write: Option<Vec<u8>> = None;
    let mut ev = Event::Begin;
    loop {
        ev = match exec.step(ev) {
            Action::Respond(o) => {
                assert!(exec.is_done());
                return o;
            }
            Action::Get(_) | Action::RawGet(_) => Event::Value(store.clone()),
            Action::Put(_, v) => {
                if shared {
                    *store = Some(v);
                } else {
                    pending_write = Some(v);
                }
                Event::Written
            }
            Action::Commit => {
                if let Some(v) = pending_write.take() {
                    *store = Some(v);
                }
                Event::Committed
            }
            Action::Rollback => {
                pending_write = None;
                Event::RolledBack
            }
            Action::RawCas(_, prev, v) => {
                if prev == *store {
                    *store = Some(v);
                    Event::Swapped(true)
                } else {
                    Event::Swapped(false)
                }
            }
        };
    }
}

const MODES: [(Backend, bool); 3] = [
    (Backend::Transactional, false),
    (Backend::Transactional, true),
    (Backend::Raw, false),
];

#[test]
fn new_keeps_key_and_step() {
    let c = IncrBy::new("counter", 5);
    assert_eq!(c.key(), "counter");
    assert_eq!(c.step(), 5);
    assert!(c.is_valid());
}

#[test]
fn new_invalid_is_invalid() {
    let c = IncrBy::new_invalid();
    assert!(!c.is_valid());
    assert_eq!(c.key(), "");
    assert_eq!(c.step(), 0);
}

#[test]
fn parse_argv_incr() {
    let c = IncrBy::parse_argv(&args(&["counter"]), true).unwrap();
    assert!(c.is_valid());
    assert_eq!(c.key(), "counter");
    assert_eq!(c.step(), 1);
}

#[test]
fn parse_argv_incrby() {
    let c = IncrBy::parse_argv(&args(&["counter", "-42"]), false).unwrap();
    assert!(c.is_valid());
    assert_eq!(c.key(), "counter");
    assert_eq!(c.step(), -42);
    let c = IncrBy::parse_argv(&args(&["k", "+7"]), false).unwrap();
    assert_eq!(c.step(), 7);
}

#[test]
fn parse_argv_wrong_arity_is_invalid() {
    assert!(!IncrBy::parse_argv(&args(&[]), true).unwrap().is_valid());
    assert!(!IncrBy::parse_argv(&args(&["a", "1"]), true).unwrap().is_valid());
    assert!(!IncrBy::parse_argv(&args(&["a"]), false).unwrap().is_valid());
    assert!(!IncrBy::parse_argv(&args(&["a", "1", "2"]), false).unwrap().is_valid());
}

#[test]
fn parse_argv_malformed_step_stays_invalid() {
    let argv = args(&["counter", "abc"]);
    for _ in 0..5 {
        let c = IncrBy::parse_argv(&argv, false).unwrap();
        assert!(!c.is_valid());
        assert_eq!(c.key(), "");
    }
    for bad in ["", "-", "+", "1.5", " 1", "9223372036854775808", "-9223372036854775809"] {
        assert!(!IncrBy::parse_argv(&args(&["k", bad]), false).unwrap().is_valid());
    }
}

#[test]
fn parse_frames_reads_key_and_step() {
    let mut p = Parse::new(vec![Frame::Bulk("counter".to_string()), Frame::Bulk("12".to_string())]);
    let c = IncrBy::parse_frames(&mut p, false).unwrap();
    assert_eq!(c.key(), "counter");
    assert_eq!(c.step(), 12);
    let mut p = Parse::new(vec![Frame::Simple("k".to_string()), Frame::Integer(-3)]);
    assert_eq!(IncrBy::parse_frames(&mut p, false).unwrap().step(), -3);
    let mut p = Parse::new(vec![Frame::Bulk("k".to_string())]);
    assert_eq!(IncrBy::parse_frames(&mut p, true).unwrap().step(), 1);
}

#[test]
fn parse_frames_malformed_is_invalid() {
    let mut p = Parse::new(vec![]);
    assert!(!IncrBy::parse_frames(&mut p, true).unwrap().is_valid());
    let mut p = Parse::new(vec![Frame::Bulk("k".to_string())]);
    assert!(!IncrBy::parse_frames(&mut p, false).unwrap().is_valid());
    assert_eq!(p.remaining_len(), 1);
    let mut p = Parse::new(vec![Frame::Integer(1)]);
    let c = IncrBy::parse_frames(&mut p, true).unwrap();
    assert!(!c.is_valid());
    assert_eq!(c.key(), "");
    assert_eq!(p.remaining_len(), 0);
    let mut p = Parse::new(vec![Frame::Bulk("k".to_string()), Frame::Bulk("x".to_string())]);
    assert!(!IncrBy::parse_frames(&mut p, false).unwrap().is_valid());
    assert_eq!(p.remaining_len(), 0);
    let mut p = Parse::new(vec![Frame::Null, Frame::Integer(2)]);
    assert!(!IncrBy::parse_frames(&mut p, false).unwrap().is_valid());
}

#[test]
fn parse_frames_agrees_with_parse_argv() {
    let cases: [(&[&str], bool); 7] = [
        (&["k"], true),
        (&["k", "x"], true),
        (&[], true),
        (&["k", "5"], false),
        (&["k", "abc"], false),
        (&["k", "5", "6"], false),
        (&["k"], false),
    ];
    for (list, single) in cases {
        let frames: Vec<Frame> = list.iter().map(|s| Frame::Bulk(s.to_string())).collect();
        let mut p = Parse::new(frames);
        let from_frames = IncrBy::parse_frames(&mut p, single).unwrap();
        let from_argv = IncrBy::parse_argv(&args(list), single).unwrap();
        assert_eq!(from_frames.is_valid(), from_argv.is_valid());
        assert_eq!(from_frames.key(), from_argv.key());
        assert_eq!(from_frames.step(), from_argv.step());
    }
}

#[test]
fn decimal_round_trip() {
    assert_eq!(encode_i64(0), b"0".to_vec());
    assert_eq!(encode_i64(-45), b"-45".to_vec());
    assert_eq!(encode_i64(i64::MAX), b"9223372036854775807".to_vec());
    assert_eq!(encode_i64(i64::MIN), b"-9223372036854775808".to_vec());
    for v in [0i64, 1, -1, 10, 99, 1234567, i64::MAX, i64::MIN] {
        assert_eq!(parse_i64(&encode_i64(v)), Some(v));
    }
    assert_eq!(parse_i64(b"007"), Some(7));
    assert_eq!(parse_i64(b"-0"), Some(0));
    assert_eq!(parse_i64(b"12a"), None);
}

#[test]
fn increment_stored_cases() {
    assert_eq!(increment_stored(&None, 4), Ok(4));
    assert_eq!(increment_stored(&Some(b"10".to_vec()), -3), Ok(7));
    assert_eq!(increment_stored(&Some(b"ten".to_vec()), 1), Err(ExecError::TypeConflict));
    assert_eq!(increment_stored(&Some(b"-9223372036854775808".to_vec()), -1), Err(ExecError::RangeOverflow));
}

#[test]
fn first_increment_stores_step() {
    for (b, shared) in MODES {
        let mut store = None;
        assert_eq!(run(IncrBy::new("k", -17), b, shared, &mut store), Outcome::Value(-17));
        assert_eq!(store, Some(b"-17".to_vec()));
    }
}

#[test]
fn two_increments_sum() {
    for (b, shared) in MODES {
        let mut store = None;
        run(IncrBy::new("k", 40), b, shared, &mut store);
        assert_eq!(run(IncrBy::new("k", 2), b, shared, &mut store), Outcome::Value(42));
        assert_eq!(store, Some(b"42".to_vec()));
    }
}

#[test]
fn non_integer_value_is_type_conflict() {
    for (b, shared) in MODES {
        let mut store = Some(b"hello".to_vec());
        assert_eq!(run(IncrBy::new("k", 1), b, shared, &mut store), Outcome::Failed(ExecError::TypeConflict));
        assert_eq!(store, Some(b"hello".to_vec()));
    }
}

#[test]
fn overflow_at_max() {
    for (b, shared) in MODES {
        let mut store = Some(encode_i64(i64::MAX));
        assert_eq!(run(IncrBy::new("k", 1), b, shared, &mut store), Outcome::Failed(ExecError::RangeOverflow));
        assert_eq!(store, Some(b"9223372036854775807".to_vec()));
    }
}

#[test]
fn shared_transaction_order_irrelevant() {
    let mut a = None;
    run(IncrBy::new("k", 3), Backend::Transactional, true, &mut a);
    let ra = run(IncrBy::new("k", 8), Backend::Transactional, true, &mut a);
    let mut b = None;
    run(IncrBy::new("k", 8), Backend::Transactional, true, &mut b);
    let rb = run(IncrBy::new("k", 3), Backend::Transactional, true, &mut b);
    assert_eq!(ra, Outcome::Value(11));
    assert_eq!(rb, Outcome::Value(11));
    assert_eq!(a, b);
}

#[test]
fn backend_modes_agree() {
    let steps = [5i64, -9, 100, 0, -96];
    let mut t = None;
    let mut r = None;
    for s in steps {
        let ot = run(IncrBy::new("k", s), Backend::Transactional, false, &mut t);
        let or = run(IncrBy::new("k", s), Backend::Raw, false, &mut r);
        assert_eq!(ot, or);
    }
    assert_eq!(t, r);
    assert_eq!(t, Some(b"0".to_vec()));
}

#[test]
fn incrby_incr_then_invalid_scenario() {
    let mut store = None;
    let c = IncrBy::parse_argv(&args(&["counter", "5"]), false).unwrap();
    let f = reply_frame(run(c, Backend::Transactional, false, &mut store));
    assert!(matches!(f, Frame::Integer(5)));
    let c = IncrBy::parse_argv(&args(&["counter"]), true).unwrap();
    let f = reply_frame(run(c, Backend::Transactional, false, &mut store));
    assert!(matches!(f, Frame::Integer(6)));
    let c = IncrBy::parse_argv(&args(&["counter", "abc"]), false).unwrap();
    let f = reply_frame(run(c, Backend::Transactional, false, &mut store));
    assert!(matches!(f, Frame::Error(ref m) if m == "ERR invalid arguments"));
    assert_eq!(store, Some(b"6".to_vec()));
}

#[test]
fn invalid_command_touches_nothing() {
    let mut exec = Execution::new(IncrBy::new_invalid(), Backend::Raw, false);
    assert!(matches!(exec.step(Event::Begin), Action::Respond(Outcome::InvalidArguments)));
}

#[test]
fn commit_conflict_is_reported() {
    let mut exec = Execution::new(IncrBy::new("k", 1), Backend::Transactional, false);
    assert!(matches!(exec.step(Event::Begin), Action::Get(ref k) if k == "k"));
    assert!(matches!(exec.step(Event::Value(None)), Action::Put(ref k, ref v) if k == "k" && v == b"1"));
    assert!(matches!(exec.step(Event::Written), Action::Commit));
    assert!(matches!(exec.step(Event::CommitConflict), Action::Respond(Outcome::Failed(ExecError::Conflict))));
}

#[test]
fn shared_transaction_left_open() {
    let mut exec = Execution::new(IncrBy::new("k", 2), Backend::Transactional, true);
    exec.step(Event::Begin);
    exec.step(Event::Value(Some(b"3".to_vec())));
    assert!(matches!(exec.step(Event::Written), Action::Respond(Outcome::Value(5))));
    let mut exec = Execution::new(IncrBy::new("k", 2), Backend::Transactional, true);
    exec.step(Event::Begin);
    assert!(matches!(
        exec.step(Event::Value(Some(b"x".to_vec()))),
        Action::Respond(Outcome::Failed(ExecError::TypeConflict))
    ));
}

#[test]
fn backend_failure_rolls_back_own_transaction() {
    let mut exec = Execution::new(IncrBy::new("k", 1), Backend::Transactional, false);
    exec.step(Event::Begin);
    assert!(matches!(exec.step(Event::BackendFailed), Action::Rollback));
    assert!(matches!(
        exec.step(Event::RolledBack),
        Action::Respond(Outcome::Failed(ExecError::BackendUnavailable))
    ));
}

#[test]
fn raw_swap_lost_is_conflict() {
    let mut exec = Execution::new(IncrBy::new("k", 1), Backend::Raw, true);
    assert!(matches!(exec.step(Event::Begin), Action::RawGet(_)));
    assert!(matches!(
        exec.step(Event::Value(Some(b"9".to_vec()))),
        Action::RawCas(_, Some(ref p), ref v) if p == b"9" && v == b"10"
    ));
    assert!(matches!(exec.step(Event::Swapped(false)), Action::Respond(Outcome::Failed(ExecError::Conflict))));
}

#[test]
fn reply_frames() {
    assert!(matches!(reply_frame(Outcome::Value(-2)), Frame::Integer(-2)));
    assert!(matches!(reply_frame(Outcome::Failed(ExecError::TypeConflict)),
        Frame::Error(ref m) if m == "ERR value is not an integer or out of range"));
    assert!(matches!(reply_frame(Outcome::Failed(ExecError::RangeOverflow)),
        Frame::Error(ref m) if m == "ERR increment or decrement would overflow"));
    assert!(matches!(reply_frame(Outcome::Failed(ExecError::Conflict)),
        Frame::Error(ref m) if m == "ERR transaction conflict, retry"));
    assert!(matches!(reply_frame(Outcome::Failed(ExecError::BackendUnavailable)),
        Frame::Error(ref m) if m == "ERR backend unavailable"));
}

#[test]
fn shared_transaction_order_irrelevant_from_prior_value() {
    let mut a = Some(b"10".to_vec());
    let a1 = run(IncrBy::new("k", 3), Backend::Transactional, true, &mut a);
    let a2 = run(IncrBy::new("k", -8), Backend::Transactional, true, &mut a);
    let mut b = Some(b"10".to_vec());
    let b1 = run(IncrBy::new("k", -8), Backend::Transactional, true, &mut b);
    let b2 = run(IncrBy::new("k", 3), Backend::Transactional, true, &mut b);
    assert_eq!((a1, a2), (Outcome::Value(13), Outcome::Value(5)));
    assert_eq!((b1, b2), (Outcome::Value(2), Outcome::Value(5)));
    assert_eq!(a, Some(b"5".to_vec()));
    assert_eq!(b, a);
}
