//! Errors of a crf search.
use crate::command::crf_search::Sample;
use vstd::prelude::*;

verus! {

broadcast use vstd::string::group_string_axioms;

/// Why a crf search fails.
#[derive(Debug, PartialEq, Eq)]
pub enum Error {
    /// No crf that could be tried is good enough.
    NoGoodCrf { last: Sample },
    /// Something else went wrong.
    Other(String),
}

impl Error {
    /// What went wrong.
    pub open spec fn text(self) -> Seq<char> {
        match self {
            Error::NoGoodCrf { .. } => "Failed to find a suitable crf"@,
            Error::Other(e) => e@,
        }
    }

    /// What went wrong.
    pub fn message(&self) -> (r: String)
        ensures
            r@ == self.text(),
    {
        match self {
            Self::NoGoodCrf { .. } => "Failed to find a suitable crf".to_owned(),
            Self::Other(e) => e.clone(),
        }
    }

    /// An error with this reason unless the condition holds.
    pub fn ensure_other(condition: bool, reason: &str) -> (r: Result<(), Self>)
        ensures
            r is Ok <==> condition,
            r matches Err(e) ==> (e matches Error::Other(m) && m@ == reason@),
    {
        if !condition {
            return Err(Self::Other(reason.to_owned()));
        }
        Ok(())
    }

    /// The failure of the search unless the condition holds.
    pub fn ensure_or_no_good_crf(condition: bool, last: &Sample) -> (r: Result<(), Self>)
        ensures
            r is Ok <==> condition,
            r matches Err(e) ==> e == (Error::NoGoodCrf { last: *last }),
    {
        if !condition {
            return Err(Self::NoGoodCrf { last: *last });
        }
        Ok(())
    }
}

} // verus!
