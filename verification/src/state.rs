//! What a round keeps: its configuration, its proposals and their votes.
//!
//! Beside these a round keeps one mark, a `bool`: whether it has been
//! distributed. The rules take it as `distributed` and refuse a second
//! distribution.

use vstd::prelude::*;
use crate::expiration::Expiration;
use crate::matching::QuadraticFundingAlgorithm;

verus! {

/// An amount of one denomination, in its smallest unit.
#[derive(Debug, Clone, PartialEq, Eq)]
pub struct Coin {
    pub denom: String,
    pub amount: u128,
}

/// The configuration of a round, fixed when the round is set up.
#[derive(Debug, Clone, PartialEq, Eq)]
pub struct Config {
    /// Who may trigger the distribution.
    pub admin: String,
    /// Who receives what the distribution leaves of the budget.
    pub leftover_addr: String,
    /// Who may create proposals; everybody where there is no list.
    pub create_proposal_whitelist: Option<Vec<String>>,
    /// Who may vote; everybody where there is no list.
    pub vote_proposal_whitelist: Option<Vec<String>>,
    /// When votes are no longer accepted.
    pub voting_period: Expiration,
    /// When proposals are no longer accepted.
    pub proposal_period: Expiration,
    /// The matching capital.
    pub budget: Coin,
    /// The formula by which the budget is shared.
    pub algorithm: QuadraticFundingAlgorithm,
}

/// A proposal and what it has collected so far.
#[derive(Debug, Clone, PartialEq, Eq)]
pub struct Proposal {
    pub id: u64,
    pub title: String,
    pub description: String,
    pub metadata: Option<Vec<u8>>,
    /// Who receives the proposal's funds.
    pub fund_address: String,
    /// The sum of the votes' funds.
    pub collected_funds: u128,
}

/// One voter's contribution to one proposal.
#[derive(Debug, Clone, PartialEq, Eq)]
pub struct Vote {
    pub proposal_id: u64,
    pub voter: String,
    pub fund: Coin,
}

/// A proposal with the votes it received, in the order in which the round
/// keeps them.
#[derive(Debug, Clone, PartialEq, Eq)]
pub struct ProposalVotes {
    pub proposal: Proposal,
    pub votes: Vec<Vote>,
}

} // verus!
