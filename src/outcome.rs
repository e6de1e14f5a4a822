//! The result of one fetch task.
use vstd::prelude::*;

verus! {

/// Why a fetch produced no body. Connection failures, timeouts and bodies
/// that cannot be read all fall under one kind.
#[derive(Clone, Copy, Debug, PartialEq, Eq, Structural)]
pub enum ErrorKind {
    NetworkError,
}

/// What one fetch task produced for one URL: the size of the body in bytes,
/// or zero and the error that ended the task.
#[derive(Debug)]
pub struct FetchOutcome {
    pub url: String,
    pub byte_size: usize,
    pub error: Option<ErrorKind>,
}

/// The outcome that a fetch of `url` ending in `result` yields.
pub open spec fn outcome_spec(url: Seq<char>, result: Result<usize, ErrorKind>, o: FetchOutcome) -> bool {
    &&& o.url@ == url
    &&& match result {
        Ok(n) => o.byte_size == n && o.error == None::<ErrorKind>,
        Err(e) => o.byte_size == 0 && o.error == Some(e),
    }
}

impl FetchOutcome {
    /// Turns the client's answer for `url` into an outcome: the body size on
    /// success, zero and the error on failure. A fetch is never retried.
    pub fn from_result(url: String, result: Result<usize, ErrorKind>) -> (o: FetchOutcome)
        ensures
            outcome_spec(url@, result, o),
    {
        match result {
            Ok(n) => FetchOutcome { url, byte_size: n, error: None },
            Err(e) => FetchOutcome { url, byte_size: 0, error: Some(e) },
        }
    }

    /// Whether the fetch read a full body.
    pub fn is_success(&self) -> (r: bool)
        ensures
            r == self.error.is_none(),
    {
        self.error.is_none()
    }
}

} // verus!
