//! The errors that the operations raise.
use vstd::prelude::*;

verus! {

/// The class of an error, as a Python caller sees it.
#[derive(Clone, Copy, Debug, PartialEq, Eq, Structural)]
pub enum ErrorKind {
    Index,
    Type,
    Value,
    Runtime,
}

/// An error with its class and its message.
#[derive(Debug)]
pub struct PyError {
    pub kind: ErrorKind,
    pub message: String,
}

/// What an error is: its class and the characters of its message.
pub struct ErrorModel {
    pub kind: ErrorKind,
    pub message: Seq<char>,
}

impl View for PyError {
    type V = ErrorModel;

    open spec fn view(&self) -> ErrorModel {
        ErrorModel { kind: self.kind, message: self.message@ }
    }
}

/// A result with the error taken by its view.
pub open spec fn outcome<T>(r: Result<T, PyError>) -> Result<T, ErrorModel> {
    match r {
        Ok(v) => Ok(v),
        Err(e) => Err(e@),
    }
}

/// A result with both the value and the error taken by their views.
pub open spec fn outcome_view<T: View>(r: Result<T, PyError>) -> Result<T::V, ErrorModel> {
    match r {
        Ok(v) => Ok(v@),
        Err(e) => Err(e@),
    }
}

/// Whether a result is an error of the given class with the given message.
pub open spec fn fails<T>(r: Result<T, PyError>, kind: ErrorKind, message: Seq<char>) -> bool {
    r matches Err(e) && e@ == (ErrorModel { kind, message })
}

/// The error of an index that is too large.
pub open spec fn out_of_range() -> ErrorModel {
    ErrorModel { kind: ErrorKind::Index, message: "index out of range"@ }
}

impl PyError {
    /// An error of the given class with the given message.
    pub fn new(kind: ErrorKind, message: &str) -> (r: PyError)
        ensures
            r@ == (ErrorModel { kind, message: message@ }),
    {
        PyError { kind, message: message.to_string() }
    }
}

/// A result fails in a way exactly if it is an error of that class with that message, and by its
/// views it is an error or a value as it was.
pub proof fn law_failure<T>(r: Result<T, PyError>, kind: ErrorKind, message: Seq<char>)
    ensures
        fails(r, kind, message) <==> r is Err && r->Err_0.kind == kind && r->Err_0.message@
            == message,
        outcome(r) is Ok <==> r is Ok,
        r is Ok ==> outcome(r)->Ok_0 == r->Ok_0,
        r is Err ==> outcome(r)->Err_0.kind == r->Err_0.kind && outcome(r)->Err_0.message
            == r->Err_0.message@,
{
}

/// By its views a result is an error or a value as it was.
pub proof fn law_outcome_view<T: View>(r: Result<T, PyError>)
    ensures
        outcome_view(r) is Ok <==> r is Ok,
        r is Ok ==> outcome_view(r)->Ok_0 == r->Ok_0@,
        r is Err ==> outcome_view(r)->Err_0.kind == r->Err_0.kind && outcome_view(r)->Err_0.message
            == r->Err_0.message@,
{
}

} // verus!
