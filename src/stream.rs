//! The decisions of a pull-based source, apart from the reading itself.
use crate::error::Result;
use crate::value::Value;
use vstd::prelude::*;

verus! {

/// What a source remembers between reads: whether its stream has ended.
///
/// A reader asks `is_finished` before it pulls from the stream, and hands
/// what it pulled (or `None`, when it did not pull) to `next`.
pub struct ReadState {
    pub finished: bool,
}

impl ReadState {
    pub fn new() -> (r: ReadState)
        ensures
            !r.finished,
    {
        ReadState { finished: false }
    }

    pub fn is_finished(&self) -> (r: bool)
        ensures
            r == self.finished,
    {
        self.finished
    }

    /// Turns what the stream yielded into the result of one read.
    ///
    /// Once the end has been reported, every later read reports it again,
    /// whatever is handed in. A decoding failure is reported as a failure,
    /// never as the end.
    pub fn next(&mut self, pulled: Option<Result<Value>>) -> (r: Result<Option<Value>>)
        ensures
            old(self).finished ==> (r matches Ok(None)) && final(self).finished,
            !old(self).finished ==> match pulled {
                None => (r matches Ok(None)) && final(self).finished,
                Some(Ok(v)) => r == Ok::<Option<Value>, crate::error::Error>(Some(v)) && !final(self).finished,
                Some(Err(e)) => r == Err::<Option<Value>, crate::error::Error>(e) && !final(self).finished,
            },
    {
        if self.finished {
            return Ok(None);
        }
        match pulled {
            None => {
                self.finished = true;
                Ok(None)
            },
            Some(Ok(v)) => Ok(Some(v)),
            Some(Err(e)) => Err(e),
        }
    }
}

} // verus!
