use vstd::prelude::*;

verus! {

/// The failures a pagination call can report.
///
/// Every call returns either a complete connection or exactly one of these;
/// no partial result is ever produced.
#[derive(Clone, Copy, Debug, PartialEq, Eq, Structural)]
pub enum Error {
    /// Neither `first` nor `last` was supplied.
    MissingPageSizeArgument,
    /// Both `first` and `last` were supplied.
    ConflictingPageSizeArguments,
    /// A supplied `after`/`before` string does not decode to an identifier.
    InvalidCursor,
    /// An underlying read or count against the record store failed.
    StorageFailure,
    /// A size argument or count conversion would wrap instead of fitting.
    NumericOverflow,
}

impl Error {
    /// A short description of the failure, for callers that log or display it.
    pub fn message(&self) -> (r: &'static str)
        ensures
            *self is MissingPageSizeArgument ==> r@ == "missing first and last pagination arguments"@,
            *self is ConflictingPageSizeArguments ==> r@ == "passed both first and last pagination arguments"@,
            *self is InvalidCursor ==> r@ == "invalid pagination cursor"@,
            *self is StorageFailure ==> r@ == "storage failure"@,
            *self is NumericOverflow ==> r@ == "numeric overflow"@,
    {
        match self {
            Error::MissingPageSizeArgument => "missing first and last pagination arguments",
            Error::ConflictingPageSizeArguments => "passed both first and last pagination arguments",
            Error::InvalidCursor => "invalid pagination cursor",
            Error::StorageFailure => "storage failure",
            Error::NumericOverflow => "numeric overflow",
        }
    }
}

} // verus!
