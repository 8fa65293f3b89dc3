use vstd::prelude::*;

verus! {

/// Everything that can go wrong while handling one request.
///
/// Every failure aborts the single request cleanly; there is no local
/// recovery, no default substitution and no partial result.
#[derive(Debug, PartialEq, Eq)]
pub enum Error {
    /// The flat option sequence has odd length, so it cannot be paired up.
    MalformedOptions,
    /// A required option (named by the payload) is absent.
    MissingRequiredField(String),
    /// A time-bound option is not a valid non-negative integer.
    InvalidTimeValue,
    /// The storage collection rejected an operation or returned an
    /// undecodable record.
    StorageFailure,
}

/// Does `e` say that the required field named `name` is missing?
pub open spec fn is_missing_field(e: Error, name: Seq<char>) -> bool {
    &&& e matches Error::MissingRequiredField(n)
    &&& n@ == name
}

} // verus!
