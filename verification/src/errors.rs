//! The kinds of failure an operation can report.

use vstd::prelude::*;

verus! {

/// Why an operation was rejected. A rejected operation changes nothing.
#[derive(Clone, Copy, Debug, PartialEq, Eq, Structural, Hash)]
pub enum SportsError {
    InsufficientTokens,
    InvalidPlayerId,
    TokenOverflow,
    UnauthorizedAccess,
    StaffLimitExceeded,
    StaffAlreadyExists,
    StaffNotFound,
    InvalidTokenUpdate,
    InsufficientPlayersAvailable,
    InsufficientPremiumPlayers,
    RandomSelectionFailed,
    InvalidPrice,
    InvalidStateTransition,
    InvalidAmount,
    RewardAlreadyDistributed,
    NoEligibleTeams,
    InvalidAccountsProvided,
    InvalidTeamId,
}

impl SportsError {
    /// The text shown to a user for each kind of failure.
    pub open spec fn spec_message(self) -> Seq<char> {
        match self {
            SportsError::InsufficientTokens => "Insufficient tokens available"@,
            SportsError::InvalidPlayerId => "Invalid player ID"@,
            SportsError::TokenOverflow => "Token overflow"@,
            SportsError::UnauthorizedAccess => "Unauthorized access"@,
            SportsError::StaffLimitExceeded => "Staff limit exceeded"@,
            SportsError::StaffAlreadyExists => "Staff already exists"@,
            SportsError::StaffNotFound => "Staff not found"@,
            SportsError::InvalidTokenUpdate => "Invalid token update"@,
            SportsError::InsufficientPlayersAvailable => "Insufficient players available"@,
            SportsError::InsufficientPremiumPlayers => "Insufficient premium players"@,
            SportsError::RandomSelectionFailed => "Random selection failed"@,
            SportsError::InvalidPrice => "Invalid price"@,
            SportsError::InvalidStateTransition => "Invalid state transition"@,
            SportsError::InvalidAmount => "Invalid amount"@,
            SportsError::RewardAlreadyDistributed => "Reward already distributed"@,
            SportsError::NoEligibleTeams => "No eligible teams"@,
            SportsError::InvalidAccountsProvided => "Invalid accounts provided"@,
            SportsError::InvalidTeamId => "Invalid team ID"@,
        }
    }

    /// The text shown to a user for this kind of failure.
    pub fn message(&self) -> (text: &'static str)
        ensures
            text@ == self.spec_message(),
    {
        match self {
            SportsError::InsufficientTokens => "Insufficient tokens available",
            SportsError::InvalidPlayerId => "Invalid player ID",
            SportsError::TokenOverflow => "Token overflow",
            SportsError::UnauthorizedAccess => "Unauthorized access",
            SportsError::StaffLimitExceeded => "Staff limit exceeded",
            SportsError::StaffAlreadyExists => "Staff already exists",
            SportsError::StaffNotFound => "Staff not found",
            SportsError::InvalidTokenUpdate => "Invalid token update",
            SportsError::InsufficientPlayersAvailable => "Insufficient players available",
            SportsError::InsufficientPremiumPlayers => "Insufficient premium players",
            SportsError::RandomSelectionFailed => "Random selection failed",
            SportsError::InvalidPrice => "Invalid price",
            SportsError::InvalidStateTransition => "Invalid state transition",
            SportsError::InvalidAmount => "Invalid amount",
            SportsError::RewardAlreadyDistributed => "Reward already distributed",
            SportsError::NoEligibleTeams => "No eligible teams",
            SportsError::InvalidAccountsProvided => "Invalid accounts provided",
            SportsError::InvalidTeamId => "Invalid team ID",
        }
    }
}

} // verus!
