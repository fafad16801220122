use vstd::prelude::*;

verus! {

/// An error reported by the store (or by the dispatcher on its behalf): the
/// status code, and the message and location that the handle gave for it.
pub struct HyperError {
    pub status: u32,
    pub message: String,
    pub location: String,
}

/// What an error holds, as plain values.
pub struct ErrorModel {
    pub status: u32,
    pub message: Seq<char>,
    pub location: Seq<char>,
}

impl HyperError {
    pub open spec fn view(&self) -> ErrorModel {
        ErrorModel { status: self.status, message: self.message@, location: self.location@ }
    }

    pub fn new(status: u32, message: String, location: String) -> (r: HyperError)
        ensures
            r@ == (ErrorModel { status, message: message@, location: location@ }),
    {
        HyperError { status, message, location }
    }
}

} // verus!
