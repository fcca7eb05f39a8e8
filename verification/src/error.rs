//! The error that filters report: a message for the operator.
use vstd::prelude::*;

verus! {

/// Why a filter rejected its configuration or failed a request.
#[derive(Debug)]
pub struct FilterError {
    message: String,
}

impl View for FilterError {
    type V = Seq<char>;

    /// The message.
    closed spec fn view(&self) -> Seq<char> {
        self.message@
    }
}

impl FilterError {
    /// An error with the given message.
    pub fn new(message: String) -> (error: FilterError)
        ensures
            error@ == message@,
    {
        FilterError { message }
    }

    /// The message.
    pub fn to_string(&self) -> (message: String)
        ensures
            message@ == self@,
    {
        self.message.clone()
    }
}

/// Whether a check ended as a fault, if there is one, says: with an error that
/// carries its message, and without an error where there is none.
pub open spec fn reports(result: Result<(), FilterError>, fault: Option<Seq<char>>) -> bool {
    match (result, fault) {
        (Ok(()), None) => true,
        (Err(error), Some(message)) => error@ == message,
        _ => false,
    }
}

/// A check succeeds exactly when there is no fault, and its error carries the
/// fault's own message.
pub proof fn law_reports(result: Result<(), FilterError>, fault: Option<Seq<char>>)
    requires
        reports(result, fault),
    ensures
        result is Ok <==> fault is None,
        result is Err ==> result->Err_0@ == fault->Some_0,
{
}

} // verus!
