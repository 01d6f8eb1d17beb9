//! The error value the scanner reports: a message and a source position.

use crate::location::loc_str;
use crate::location::SourceLocation;
use vstd::prelude::*;
use vstd::string::*;

verus! {

/// A diagnostic carrying a message and the position it refers to.
/// A scan stops permanently once one of these is returned.
#[derive(Debug, Clone)]
pub struct TError {
    message: String,
    location: SourceLocation,
}

impl TError {
    /// The message text, for use in specifications.
    pub closed spec fn spec_message(&self) -> Seq<char> {
        self.message@
    }

    /// The position the error refers to, for use in specifications.
    pub closed spec fn spec_location(&self) -> SourceLocation {
        self.location
    }

    /// An error with no meaningful position: line and column are both 0.
    pub fn new(message: &str) -> (r: TError)
        ensures
            r.spec_message() == message@,
            r.spec_location().spec_line() == 0,
            r.spec_location().spec_col() == 0,
    {
        TError { message: String::from_str(message), location: SourceLocation::new(0, 0) }
    }

    /// An error at the given position.
    pub fn with_location(message: &str, location: SourceLocation) -> (r: TError)
        ensures
            r.spec_message() == message@,
            r.spec_location() == location,
    {
        TError { message: String::from_str(message), location }
    }

    /// The message followed by the rendered position.
    pub fn get_error_message(&self) -> (r: String)
        ensures
            r@ == self.spec_message() + loc_str(
                self.spec_location().spec_line() as nat,
                self.spec_location().spec_col() as nat,
            ),
    {
        let mut s = self.message.clone();
        s.append(self.location.to_string().as_str());
        s
    }

    /// Returns an error with the given message when the condition is false.
    pub fn check(&self, check: bool, message: &str) -> (r: Result<(), TError>)
        ensures
            check ==> r is Ok,
            !check ==> {
                &&& r is Err
                &&& r->Err_0.spec_message() == message@
                &&& r->Err_0.spec_location().spec_line() == 0
                &&& r->Err_0.spec_location().spec_col() == 0
            },
    {
        if !check {
            Err(TError::new(message))
        } else {
            Ok(())
        }
    }
}

} // verus!
