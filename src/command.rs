//! The counter-increment command value and its argument validation.
use vstd::prelude::*;
use crate::decimal::{parse_i64, parse_i64_spec};
use crate::frame::{frame_int, frame_string, Frame, Parse, ParseError};

verus! {

/// A validated `INCR` / `INCRBY` command. An invalid one carries an empty key
/// and a zero step, which nothing may use to touch storage.
#[derive(Debug)]
pub struct IncrBy {
    key: String,
    step: i64,
    valid: bool,
}

/// What a command value stands for.
pub struct CommandView {
    pub key: Seq<char>,
    pub step: i64,
    pub valid: bool,
}

pub open spec fn invalid_command() -> CommandView {
    CommandView { key: Seq::empty(), step: 0, valid: false }
}

/// The command that an argument list gives: the key alone with a step of one,
/// or the key and a step that must read as a signed 64-bit integer; any other
/// shape gives the invalid command.
pub open spec fn argv_command(argv: Seq<Seq<char>>, single_step: bool) -> CommandView {
    if single_step {
        if argv.len() == 1 {
            CommandView { key: argv[0], step: 1, valid: true }
        } else {
            invalid_command()
        }
    } else if argv.len() == 2 {
        match parse_i64_spec(vstd::utf8::encode_utf8(argv[1])) {
            Some(step) => CommandView { key: argv[0], step, valid: true },
            None => invalid_command(),
        }
    } else {
        invalid_command()
    }
}

/// How many arguments a command takes: the key alone for `INCR`, the key and
/// the step for `INCRBY`.
pub open spec fn arity(single_step: bool) -> int {
    if single_step {
        1
    } else {
        2
    }
}

/// The command that the remaining frames give: exactly one string frame for
/// `INCR`, exactly a string frame and then an integer frame for `INCRBY`; any
/// other shape gives the invalid command, as a malformed argument list does.
pub open spec fn frames_command(rem: Seq<Frame>, single_step: bool) -> CommandView {
    if single_step {
        if rem.len() == 1 {
            match frame_string(rem[0]) {
                Some(key) => CommandView { key, step: 1, valid: true },
                None => invalid_command(),
            }
        } else {
            invalid_command()
        }
    } else if rem.len() == 2 {
        match (frame_string(rem[0]), frame_int(rem[1])) {
            (Some(key), Some(step)) => CommandView { key, step, valid: true },
            _ => invalid_command(),
        }
    } else {
        invalid_command()
    }
}

impl View for IncrBy {
    type V = CommandView;

    closed spec fn view(&self) -> CommandView {
        CommandView { key: self.key@, step: self.step, valid: self.valid }
    }
}

impl IncrBy {
    /// A valid command on `key` with the given step.
    pub fn new(key: &str, step: i64) -> (r: IncrBy)
        ensures
            r@ == (CommandView { key: key@, step, valid: true }),
    {
        IncrBy { key: key.to_owned(), step, valid: true }
    }

    /// The invalid command, which every malformed argument list gives.
    pub fn new_invalid() -> (r: IncrBy)
        ensures
            r@ == invalid_command(),
    {
        let key = String::new();
        IncrBy { key, step: 0, valid: false }
    }

    pub fn key(&self) -> (r: &str)
        ensures
            r@ == self@.key,
    {
        self.key.as_str()
    }

    pub fn step(&self) -> (r: i64)
        ensures
            r == self@.step,
    {
        self.step
    }

    pub fn is_valid(&self) -> (r: bool)
        ensures
            r == self@.valid,
    {
        self.valid
    }

    /// Validates a command's frames as [`IncrBy::parse_argv`] validates an
    /// argument list: a malformed or wrongly sized list of frames gives the
    /// invalid command, never an error. Frames of the right count are all
    /// consumed; otherwise none is.
    pub fn parse_frames(parse: &mut Parse, single_step: bool) -> (r: Result<IncrBy, ParseError>)
        requires
            old(parse).wf(),
        ensures
            final(parse).wf(),
            r is Ok,
            r->Ok_0@ == frames_command(old(parse).remaining(), single_step),
            old(parse).remaining().len() == arity(single_step) ==> final(parse).remaining().len() == 0,
            old(parse).remaining().len() != arity(single_step) ==> final(parse).remaining() == old(parse).remaining(),
    {
        let n = parse.remaining_len();
        if (single_step && n != 1) || (!single_step && n != 2) {
            return Ok(IncrBy::new_invalid());
        }
        let key = parse.next_string();
        if single_step {
            return match key {
                Ok(k) => Ok(IncrBy { key: k, step: 1, valid: true }),
                Err(_) => Ok(IncrBy::new_invalid()),
            };
        }
        let step = parse.next_int();
        match (key, step) {
            (Ok(k), Ok(s)) => Ok(IncrBy { key: k, step: s, valid: true }),
            _ => Ok(IncrBy::new_invalid()),
        }
    }

    /// Validates a raw argument list: exactly the key for `INCR`, the key and an
    /// integer step for `INCRBY`. A malformed list gives the invalid command,
    /// never an error.
    pub fn parse_argv(argv: &Vec<String>, single_step: bool) -> (r: Result<IncrBy, ParseError>)
        ensures
            r is Ok,
            r->Ok_0@ == argv_command(argv@.map_values(|s: String| s@), single_step),
    {
        let ghost args = argv@.map_values(|s: String| s@);
        if (single_step && argv.len() != 1) || (!single_step && argv.len() != 2) {
            return Ok(IncrBy::new_invalid());
        }
        let key = argv[0].as_str();
        if single_step {
            return Ok(IncrBy::new(key, 1));
        }
        match parse_i64(argv[1].as_str().as_bytes()) {
            Some(step) => Ok(IncrBy::new(key, step)),
            None => Ok(IncrBy::new_invalid()),
        }
    }
}

} // verus!
