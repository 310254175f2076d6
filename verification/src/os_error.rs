//! What the operating system said of a failed call.

use vstd::prelude::*;

verus! {

/// A failed call: the error number, where there is one, and its description.
#[derive(Debug)]
pub struct OsError {
    pub code: Option<i32>,
    pub text: String,
}

impl Clone for OsError {
    fn clone(&self) -> (r: OsError)
        ensures
            r == *self,
    {
        OsError { code: self.code, text: self.text.clone() }
    }
}

/// How a poll went.
#[derive(Debug)]
pub enum PollEvent {
    Ready,
    TimedOut,
    Interrupted,
    Failed(OsError),
}

} // verus!
