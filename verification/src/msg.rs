//! What a round is sent.

use vstd::prelude::*;
use crate::error::ContractError;
use crate::expiration::{is_expired, BlockInfo, Env, Expiration};
use crate::matching::QuadraticFundingAlgorithm;
use crate::state::Coin;

verus! {

/// Who sent a message, and the funds that came with it.
#[derive(Debug, Clone, PartialEq, Eq)]
pub struct MessageInfo {
    pub sender: String,
    pub funds: Vec<Coin>,
}

/// The message that sets a round up. The budget is the one coin that comes
/// with it.
#[derive(Debug, Clone, PartialEq, Eq)]
pub struct InstantiateMsg {
    pub admin: String,
    pub leftover_addr: String,
    pub create_proposal_whitelist: Option<Vec<String>>,
    pub vote_proposal_whitelist: Option<Vec<String>>,
    pub voting_period: Expiration,
    pub proposal_period: Expiration,
    pub budget_denom: String,
    pub algorithm: QuadraticFundingAlgorithm,
}

impl InstantiateMsg {
    /// A round can be set up in the given block only while both of its
    /// periods are still open; the proposal period is looked at first.
    pub open spec fn validation(&self, block: BlockInfo) -> Result<(), ContractError> {
        if self.proposal_period.expired_in(block) {
            Err(ContractError::ProposalPeriodExpired)
        } else if self.voting_period.expired_in(block) {
            Err(ContractError::VotingPeriodExpired)
        } else {
            Ok(())
        }
    }

    /// Refuses a round whose proposal period or voting period is already
    /// over.
    pub fn validate(&self, env: &Env) -> (r: Result<(), ContractError>)
        ensures
            r == self.validation(env.block),
    {
        if is_expired(&self.proposal_period, &env.block) {
            return Err(ContractError::ProposalPeriodExpired);
        }
        if is_expired(&self.voting_period, &env.block) {
            return Err(ContractError::VotingPeriodExpired);
        }
        Ok(())
    }
}

/// An order to send funds from the round to an address.
#[derive(Debug, Clone, PartialEq, Eq)]
pub struct Transfer {
    pub to_address: String,
    pub amount: Coin,
}

/// The mathematical content of a [`Transfer`].
pub struct TransferView {
    pub to_address: Seq<char>,
    pub denom: Seq<char>,
    pub amount: nat,
}

impl View for Transfer {
    type V = TransferView;

    open spec fn view(&self) -> TransferView {
        TransferView {
            to_address: self.to_address@,
            denom: self.amount.denom@,
            amount: self.amount.amount as nat,
        }
    }
}

/// The views of a list of transfers, in order.
pub open spec fn transfer_views(transfers: Seq<Transfer>) -> Seq<TransferView> {
    transfers.map_values(|t: Transfer| t@)
}

} // verus!
