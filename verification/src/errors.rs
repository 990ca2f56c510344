use vstd::prelude::*;

verus! {

/// Every way an operation of the registry can be refused.
///
/// Each operation's contract states exactly which of these it returns on
/// which inputs; no operation mutates any state when it returns an error.
#[derive(Clone, Copy, Debug, PartialEq, Eq)]
pub enum VoteError {
    /// Malformed creation parameters: an empty answer list.
    InvalidInput,
    /// The caller is not the poll owner (close), or not the declared
    /// owner of the credential (vote commit).
    Unauthorized,
    /// The addressed authority group or poll index does not exist.
    NotFound,
    /// The credential is already present in the poll's tally.
    AlreadyVoted,
    /// The chosen answer index is out of range for the addressed poll.
    InvalidAnswer,
    /// The external ownership query did not complete with a usable record.
    VerificationFailed,
    /// The addressed poll has been closed; no further ballots are accepted.
    PollClosed,
    /// The completion phase was invoked with other than exactly one
    /// pending verification result: a protocol violation.
    InternalError,
}

} // verus!
