//! The errors that the ledger-side instructions report.

use vstd::prelude::*;

verus! {

/// Why an instruction was refused.
#[derive(Copy, Clone, Debug, PartialEq, Eq, Structural)]
pub enum ErrorCode {
    AbortedComputation,
    ClusterNotSet,
    OrderIdOverflow,
    MatchingTooFrequent,
    InsufficientBalance,
    Overflow,
    UnauthorizedSettlement,
    AlreadySettled,
}

impl ErrorCode {
    /// The text of `message`.
    pub open spec fn spec_message(&self) -> Seq<char> {
        match self {
            ErrorCode::AbortedComputation => "The computation was aborted"@,
            ErrorCode::ClusterNotSet => "Cluster not set"@,
            ErrorCode::OrderIdOverflow => "Order ID overflow"@,
            ErrorCode::MatchingTooFrequent => "Matching can only occur every 15 seconds"@,
            ErrorCode::InsufficientBalance => "Insufficient balance"@,
            ErrorCode::Overflow => "Overflow"@,
            ErrorCode::UnauthorizedSettlement => "Unauthorized settlement authority"@,
            ErrorCode::AlreadySettled => "Match already settled"@,
        }
    }

    /// The message shown to the caller for this error.
    pub fn message(&self) -> (text: &'static str)
        ensures
            text@ == self.spec_message(),
    {
        match self {
            ErrorCode::AbortedComputation => "The computation was aborted",
            ErrorCode::ClusterNotSet => "Cluster not set",
            ErrorCode::OrderIdOverflow => "Order ID overflow",
            ErrorCode::MatchingTooFrequent => "Matching can only occur every 15 seconds",
            ErrorCode::InsufficientBalance => "Insufficient balance",
            ErrorCode::Overflow => "Overflow",
            ErrorCode::UnauthorizedSettlement => "Unauthorized settlement authority",
            ErrorCode::AlreadySettled => "Match already settled",
        }
    }
}

} // verus!
