//! The ways in which a call can fail.

use vstd::prelude::*;
use vstd::string::StringExecFns;

verus! {

/// Why a round refused a message, or why the matching engine gave no result.
///
/// Every error aborts the whole call: nothing is changed and no amount is
/// handed out.
#[derive(Debug, Clone, PartialEq, Eq)]
pub enum ContractError {
    /// The sender may not do this.
    Unauthorized,
    /// Proposals are no longer accepted.
    ProposalPeriodExpired,
    /// Votes are no longer accepted.
    VotingPeriodExpired,
    /// The distribution was asked for while votes are still accepted.
    VotingPeriodNotExpired,
    /// The distribution was asked for a second time.
    AlreadyDistributed,
    /// No proposal has the given id.
    ProposalNotFound,
    /// The sender has already voted on this proposal.
    AddressAlreadyVotedProject,
    /// The message did not carry exactly one coin.
    WrongCoinSent,
    /// The message carried a coin of another denomination than the round's.
    WrongFundCoin { expected: String, got: String },
    /// A sum, a square or a product left the range of 128-bit amounts.
    ArithmeticOverflow,
    /// The configured matching formula is not one the engine implements.
    UnsupportedAlgorithm,
    /// A grant's collected total is not the sum of its contributions.
    InvalidInput,
}

impl ContractError {
    /// The error in words.
    pub open spec fn text(self) -> Seq<char> {
        match self {
            ContractError::Unauthorized => "Unauthorized"@,
            ContractError::ProposalPeriodExpired => "Proposal period expired"@,
            ContractError::VotingPeriodExpired => "Voting period expired"@,
            ContractError::VotingPeriodNotExpired => "Voting period not expired"@,
            ContractError::AlreadyDistributed => "Already distributed"@,
            ContractError::ProposalNotFound => "Proposal not found"@,
            ContractError::AddressAlreadyVotedProject => "Address already voted project"@,
            ContractError::WrongCoinSent => "Wrong coin sent"@,
            ContractError::WrongFundCoin { expected, got } => "Wrong fund coin (expected: "@
                + expected@ + ", got: "@ + got@ + ")"@,
            ContractError::ArithmeticOverflow => "Arithmetic overflow"@,
            ContractError::UnsupportedAlgorithm => "Unsupported algorithm"@,
            ContractError::InvalidInput => "Invalid input"@,
        }
    }

    /// The error in words, for a log or a reply.
    pub fn message(&self) -> (text: String)
        ensures
            text@ == self.text(),
    {
        match self {
            ContractError::Unauthorized => String::from_str("Unauthorized"),
            ContractError::ProposalPeriodExpired => String::from_str("Proposal period expired"),
            ContractError::VotingPeriodExpired => String::from_str("Voting period expired"),
            ContractError::VotingPeriodNotExpired => String::from_str(
                "Voting period not expired",
            ),
            ContractError::AlreadyDistributed => String::from_str("Already distributed"),
            ContractError::ProposalNotFound => String::from_str("Proposal not found"),
            ContractError::AddressAlreadyVotedProject => String::from_str(
                "Address already voted project",
            ),
            ContractError::WrongCoinSent => String::from_str("Wrong coin sent"),
            ContractError::WrongFundCoin { expected, got } => String::from_str(
                "Wrong fund coin (expected: ",
            ).concat(expected.as_str()).concat(", got: ").concat(got.as_str()).concat(")"),
            ContractError::ArithmeticOverflow => String::from_str("Arithmetic overflow"),
            ContractError::UnsupportedAlgorithm => String::from_str("Unsupported algorithm"),
            ContractError::InvalidInput => String::from_str("Invalid input"),
        }
    }
}

} // verus!
