//! Protocol values: the frames a command is read from and a reply is written as,
//! and a cursor over the frames of one command.
use vstd::prelude::*;
use crate::decimal::{parse_i64, parse_i64_spec};

verus! {

/// One protocol value.
#[derive(Debug, Clone)]
pub enum Frame {
    Simple(String),
    Error(String),
    Integer(i64),
    Bulk(String),
    Null,
}

/// Why a command's frames could not be read.
#[derive(Debug, Clone, Copy, PartialEq, Eq, Structural)]
pub enum ParseError {
    /// No frame is left where one was needed.
    EndOfStream,
    /// A frame is not of the kind needed.
    Protocol,
}

/// A cursor over the argument frames of one command.
pub struct Parse {
    parts: Vec<Frame>,
    pos: usize,
}

/// The string a frame holds, if it is a string frame.
pub open spec fn frame_string(f: Frame) -> Option<Seq<char>> {
    match f {
        Frame::Simple(s) => Some(s@),
        Frame::Bulk(s) => Some(s@),
        _ => None,
    }
}

/// The integer a frame holds: an integer frame, or a string frame whose text
/// reads as one.
pub open spec fn frame_int(f: Frame) -> Option<i64> {
    match f {
        Frame::Integer(v) => Some(v),
        Frame::Simple(s) => parse_i64_spec(vstd::utf8::encode_utf8(s@)),
        Frame::Bulk(s) => parse_i64_spec(vstd::utf8::encode_utf8(s@)),
        _ => None,
    }
}

impl Parse {
    /// The frames not yet consumed.
    pub closed spec fn remaining(&self) -> Seq<Frame> {
        self.parts@.subrange(self.pos as int, self.parts@.len() as int)
    }

    pub closed spec fn wf(&self) -> bool {
        self.pos <= self.parts@.len()
    }

    pub fn new(parts: Vec<Frame>) -> (r: Parse)
        ensures
            r.wf(),
            r.remaining() == parts@,
    {
        let r = Parse { parts, pos: 0 };
        assert(r.remaining() =~= r.parts@);
        r
    }

    /// How many frames are not yet consumed.
    pub fn remaining_len(&self) -> (r: usize)
        requires
            self.wf(),
        ensures
            r == self.remaining().len(),
    {
        self.parts.len() - self.pos
    }

    /// Takes the next frame as a string.
    pub fn next_string(&mut self) -> (r: Result<String, ParseError>)
        requires
            old(self).wf(),
        ensures
            final(self).wf(),
            old(self).remaining().len() == 0 ==> r == Err::<String, ParseError>(ParseError::EndOfStream)
                && final(self).remaining() == old(self).remaining(),
            old(self).remaining().len() > 0 ==> final(self).remaining() == old(self).remaining().drop_first()
                && match frame_string(old(self).remaining()[0]) {
                Some(s) => r is Ok && r->Ok_0@ == s,
                None => r == Err::<String, ParseError>(ParseError::Protocol),
            },
    {
        if self.pos >= self.parts.len() {
            return Err(ParseError::EndOfStream);
        }
        let ghost before = self.remaining();
        let r = match &self.parts[self.pos] {
            Frame::Simple(s) => Ok(s.clone()),
            Frame::Bulk(s) => Ok(s.clone()),
            _ => Err(ParseError::Protocol),
        };
        self.pos = self.pos + 1;
        assert(self.remaining() =~= before.drop_first());
        r
    }

    /// Takes the next frame as a signed 64-bit integer.
    pub fn next_int(&mut self) -> (r: Result<i64, ParseError>)
        requires
            old(self).wf(),
        ensures
            final(self).wf(),
            old(self).remaining().len() == 0 ==> r == Err::<i64, ParseError>(ParseError::EndOfStream)
                && final(self).remaining() == old(self).remaining(),
            old(self).remaining().len() > 0 ==> final(self).remaining() == old(self).remaining().drop_first()
                && match frame_int(old(self).remaining()[0]) {
                Some(v) => r == Ok::<i64, ParseError>(v),
                None => r == Err::<i64, ParseError>(ParseError::Protocol),
            },
    {
        if self.pos >= self.parts.len() {
            return Err(ParseError::EndOfStream);
        }
        let ghost before = self.remaining();
        let parsed = match &self.parts[self.pos] {
            Frame::Integer(v) => Some(*v),
            Frame::Simple(s) => parse_i64(s.as_str().as_bytes()),
            Frame::Bulk(s) => parse_i64(s.as_str().as_bytes()),
            _ => None,
        };
        self.pos = self.pos + 1;
        assert(self.remaining() =~= before.drop_first());
        match parsed {
            Some(v) => Ok(v),
            None => Err(ParseError::Protocol),
        }
    }
}

} // verus!
