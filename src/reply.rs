//! How an execution's outcome is written back to the client.
use vstd::prelude::*;
use vstd::string::*;
use crate::engine::{ExecError, Outcome};
use crate::frame::Frame;

verus! {

/// The message of the error reply for an outcome that is not a value.
pub open spec fn error_text(o: Outcome) -> Seq<char> {
    match o {
        Outcome::InvalidArguments => "ERR invalid arguments"@,
        Outcome::Failed(ExecError::TypeConflict) => "ERR value is not an integer or out of range"@,
        Outcome::Failed(ExecError::RangeOverflow) => "ERR increment or decrement would overflow"@,
        Outcome::Failed(ExecError::Conflict) => "ERR transaction conflict, retry"@,
        Outcome::Failed(ExecError::BackendUnavailable) => "ERR backend unavailable"@,
        Outcome::Value(_) => Seq::empty(),
    }
}

/// The protocol reply for an outcome: an integer reply carrying the counter's
/// new value, or an error reply.
pub fn reply_frame(o: Outcome) -> (r: Frame)
    ensures
        match o {
            Outcome::Value(n) => r == Frame::Integer(n),
            _ => r is Error && r->Error_0@ == error_text(o),
        },
{
    match o {
        Outcome::Value(n) => Frame::Integer(n),
        Outcome::InvalidArguments => Frame::Error(String::from_str("ERR invalid arguments")),
        Outcome::Failed(ExecError::TypeConflict) => Frame::Error(
            String::from_str("ERR value is not an integer or out of range"),
        ),
        Outcome::Failed(ExecError::RangeOverflow) => Frame::Error(
            String::from_str("ERR increment or decrement would overflow"),
        ),
        Outcome::Failed(ExecError::Conflict) => Frame::Error(
            String::from_str("ERR transaction conflict, retry"),
        ),
        Outcome::Failed(ExecError::BackendUnavailable) => Frame::Error(
            String::from_str("ERR backend unavailable"),
        ),
    }
}

} // verus!
