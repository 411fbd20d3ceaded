//! The rules of a round: what each message is answered with, given what the
//! round holds.
//!
//! The functions here decide and compute; they neither read nor write the
//! round's records. The caller hands in what the records hold and stores what
//! comes back. Each request has a `check_` function for what can be decided
//! from the configuration alone, so that a caller can refuse before it reads
//! any other record; the `execute_` functions make the same checks first.

use vstd::prelude::*;
use crate::error::ContractError;
use crate::expiration::{is_expired, Env};
use crate::helper::{
    admitted,
    extract_budget_coin,
    is_admitted,
    is_budget_coin,
    is_budget_coin_error,
};
use crate::matching::{
    amounts,
    calculated_views,
    clr,
    consistent,
    distribute,
    granted,
    lemma_budget_conserved,
    lemma_clr_keeps_grants,
    lemma_many_small_matched_at_least_one_large,
    raw_views,
    sum,
    CalculatedGrantView,
    RawGrant,
    RawGrantView,
};
use crate::msg::{transfer_views, InstantiateMsg, MessageInfo, Transfer, TransferView};
use crate::state::{Coin, Config, Proposal, ProposalVotes, Vote};

verus! {

/// Sets a round up.
///
/// The round is refused where one of its periods is already over, and where
/// the message does not carry exactly one coin of the budget's denomination.
/// Else the configuration holds what the message says, and that coin as the
/// budget. Addresses are taken as they come: that they are well formed is for
/// the caller to establish.
pub fn instantiate(env: &Env, info: &MessageInfo, msg: InstantiateMsg) -> (r: Result<
    Config,
    ContractError,
>)
    ensures
        match r {
            Ok(config) => {
                &&& msg.validation(env.block) is Ok
                &&& is_budget_coin(info.funds@, msg.budget_denom@)
                &&& config.admin == msg.admin
                &&& config.leftover_addr == msg.leftover_addr
                &&& config.create_proposal_whitelist == msg.create_proposal_whitelist
                &&& config.vote_proposal_whitelist == msg.vote_proposal_whitelist
                &&& config.voting_period == msg.voting_period
                &&& config.proposal_period == msg.proposal_period
                &&& config.algorithm == msg.algorithm
                &&& config.budget.denom@ == msg.budget_denom@
                &&& config.budget.amount == info.funds[0].amount
            },
            Err(e) => match msg.validation(env.block) {
                Err(refusal) => e == refusal,
                Ok(_) => is_budget_coin_error(info.funds@, msg.budget_denom@, e),
            },
        },
{
    match msg.validate(env) {
        Ok(_) => {},
        Err(e) => {
            return Err(e);
        },
    }
    let budget = match extract_budget_coin(&info.funds, &msg.budget_denom) {
        Ok(coin) => coin,
        Err(e) => {
            return Err(e);
        },
    };
    Ok(
        Config {
            admin: msg.admin,
            leftover_addr: msg.leftover_addr,
            create_proposal_whitelist: msg.create_proposal_whitelist,
            vote_proposal_whitelist: msg.vote_proposal_whitelist,
            voting_period: msg.voting_period,
            proposal_period: msg.proposal_period,
            budget,
            algorithm: msg.algorithm,
        },
    )
}

/// Why a request to create a proposal is refused, if it is: the sender is
/// not let through by the whitelist for proposals, or else the proposal
/// period is over.
pub open spec fn create_refusal(config: Config, env: Env, sender: Seq<char>) -> Option<
    ContractError,
> {
    if !admitted(config.create_proposal_whitelist, sender) {
        Some(ContractError::Unauthorized)
    } else if config.proposal_period.expired_in(env.block) {
        Some(ContractError::ProposalPeriodExpired)
    } else {
        None
    }
}

/// Decides whether the sender may create a proposal in this block.
///
/// This is all that `execute_create_proposal` can refuse a request for, and
/// it needs none of the round's records but the configuration.
pub fn check_create_proposal(config: &Config, env: &Env, info: &MessageInfo) -> (r: Result<
    (),
    ContractError,
>)
    ensures
        match create_refusal(*config, *env, info.sender@) {
            Some(e) => r == Err::<(), ContractError>(e),
            None => r is Ok,
        },
{
    if !is_admitted(&config.create_proposal_whitelist, &info.sender) {
        return Err(ContractError::Unauthorized);
    }
    if is_expired(&config.proposal_period, &env.block) {
        return Err(ContractError::ProposalPeriodExpired);
    }
    Ok(())
}

/// Answers a request to create a proposal.
///
/// `last_id` is the id that the round gave out last, zero before the first.
/// The sender must be let through by the whitelist for proposals, and the
/// proposal period must still be open. The new proposal gets the next id and
/// has collected nothing.
pub fn execute_create_proposal(
    config: &Config,
    last_id: u64,
    env: &Env,
    info: &MessageInfo,
    title: String,
    description: String,
    metadata: Option<Vec<u8>>,
    fund_address: String,
) -> (r: Result<Proposal, ContractError>)
    requires
        last_id < u64::MAX,
    ensures
        match r {
            Ok(proposal) => {
                &&& create_refusal(*config, *env, info.sender@) is None
                &&& proposal.id == last_id + 1
                &&& proposal.title == title
                &&& proposal.description == description
                &&& proposal.metadata == metadata
                &&& proposal.fund_address == fund_address
                &&& proposal.collected_funds == 0
            },
            Err(e) => create_refusal(*config, *env, info.sender@) == Some(e),
        },
{
    match check_create_proposal(config, env, info) {
        Ok(_) => {},
        Err(e) => {
            return Err(e);
        },
    }
    Ok(
        Proposal {
            id: last_id + 1,
            title,
            description,
            metadata,
            fund_address,
            collected_funds: 0,
        },
    )
}

/// The vote is let in: the sender is let through by the whitelist for votes,
/// the voting period is open, and the funds are one coin of the budget's
/// denomination.
pub open spec fn vote_admitted(config: Config, env: Env, info: MessageInfo) -> bool {
    &&& admitted(config.vote_proposal_whitelist, info.sender@)
    &&& !config.voting_period.expired_in(env.block)
    &&& is_budget_coin(info.funds@, config.budget.denom@)
}

/// The error says why the vote is not let in: `Unauthorized` for a sender
/// whom the whitelist keeps out, else `VotingPeriodExpired` once the voting
/// period is over, else what is wrong with the funds.
pub open spec fn is_vote_refusal(
    config: Config,
    env: Env,
    info: MessageInfo,
    e: ContractError,
) -> bool {
    if !admitted(config.vote_proposal_whitelist, info.sender@) {
        e == ContractError::Unauthorized
    } else if config.voting_period.expired_in(env.block) {
        e == ContractError::VotingPeriodExpired
    } else {
        !is_budget_coin(info.funds@, config.budget.denom@) && is_budget_coin_error(
            info.funds@,
            config.budget.denom@,
            e,
        )
    }
}

/// Decides whether a vote is let in, and takes its funds.
///
/// These are the checks that need none of the round's records but the
/// configuration; `execute_vote_proposal` makes them first.
pub fn check_vote_proposal(config: &Config, env: &Env, info: &MessageInfo) -> (r: Result<
    Coin,
    ContractError,
>)
    ensures
        match r {
            Ok(fund) => {
                &&& vote_admitted(*config, *env, *info)
                &&& fund.denom@ == config.budget.denom@
                &&& fund.amount == info.funds[0].amount
            },
            Err(e) => is_vote_refusal(*config, *env, *info, e),
        },
{
    if !is_admitted(&config.vote_proposal_whitelist, &info.sender) {
        return Err(ContractError::Unauthorized);
    }
    if is_expired(&config.voting_period, &env.block) {
        return Err(ContractError::VotingPeriodExpired);
    }
    extract_budget_coin(&info.funds, &config.budget.denom)
}

/// The vote would be counted but for the proposal's total: the sender is let
/// through, the voting period is open, the funds are one coin of the budget's
/// denomination, and the proposal exists.
pub open spec fn vote_reaches_proposal(
    config: Config,
    proposal: Option<Proposal>,
    env: Env,
    info: MessageInfo,
) -> bool {
    &&& vote_admitted(config, env, info)
    &&& proposal is Some
}

/// The proposal's total stays a 128-bit amount when the vote is counted.
pub open spec fn vote_total_fits(
    config: Config,
    proposal: Option<Proposal>,
    env: Env,
    info: MessageInfo,
) -> bool {
    vote_reaches_proposal(config, proposal, env, info) ==> proposal->Some_0.collected_funds
        + info.funds[0].amount <= u128::MAX
}

/// Whether `execute_vote_proposal` can take the vote: whether the proposal's
/// total stays a 128-bit amount when the vote is counted.
pub fn can_count_vote(
    config: &Config,
    proposal: &Option<Proposal>,
    env: &Env,
    info: &MessageInfo,
) -> (fits: bool)
    ensures
        fits == vote_total_fits(*config, *proposal, *env, *info),
{
    let fund = match check_vote_proposal(config, env, info) {
        Ok(coin) => coin,
        Err(_) => {
            return true;
        },
    };
    match proposal {
        Some(found) => fund.amount <= u128::MAX - found.collected_funds,
        None => true,
    }
}

/// Answers a vote.
///
/// `proposal` is what the round holds under `proposal_id`, if anything, and
/// `voted` says whether the sender has voted on it before. The checks are
/// made in this order: the whitelist for votes, the voting period, the funds
/// (one coin of the budget's denomination), the proposal, the earlier vote.
/// A vote that passes them adds its funds to what the proposal has
/// collected, and is recorded under the sender's address.
pub fn execute_vote_proposal(
    config: &Config,
    proposal: Option<Proposal>,
    voted: bool,
    env: &Env,
    info: &MessageInfo,
    proposal_id: u64,
) -> (r: Result<(Proposal, Vote), ContractError>)
    requires
        vote_total_fits(*config, proposal, *env, *info),
    ensures
        match r {
            Ok((updated, vote)) => {
                &&& vote_reaches_proposal(*config, proposal, *env, *info)
                &&& !voted
                &&& updated.id == proposal->Some_0.id
                &&& updated.title == proposal->Some_0.title
                &&& updated.description == proposal->Some_0.description
                &&& updated.metadata == proposal->Some_0.metadata
                &&& updated.fund_address == proposal->Some_0.fund_address
                &&& updated.collected_funds == proposal->Some_0.collected_funds
                    + info.funds[0].amount
                &&& vote.proposal_id == proposal_id
                &&& vote.voter@ == info.sender@
                &&& vote.fund.denom@ == config.budget.denom@
                &&& vote.fund.amount == info.funds[0].amount
            },
            Err(e) => if !vote_admitted(*config, *env, *info) {
                is_vote_refusal(*config, *env, *info, e)
            } else if proposal is None {
                e == ContractError::ProposalNotFound
            } else {
                voted && e == ContractError::AddressAlreadyVotedProject
            },
        },
{
    let fund = match check_vote_proposal(config, env, info) {
        Ok(coin) => coin,
        Err(e) => {
            return Err(e);
        },
    };
    let mut updated = match proposal {
        Some(found) => found,
        None => {
            return Err(ContractError::ProposalNotFound);
        },
    };
    updated.collected_funds = updated.collected_funds + fund.amount;
    if voted {
        return Err(ContractError::AddressAlreadyVotedProject);
    }
    let vote = Vote { proposal_id, voter: info.sender.clone(), fund };
    Ok((updated, vote))
}

/// The funds of a list of votes, in order.
pub open spec fn vote_funds(votes: Seq<Vote>) -> Seq<nat> {
    votes.map_values(|v: Vote| v.fund.amount as nat)
}

/// What a proposal and its votes bring to the distribution: the proposal's
/// fund address, the votes' funds, and what the proposal has collected.
pub open spec fn grant_of(entry: ProposalVotes) -> RawGrantView {
    RawGrantView {
        addr: entry.proposal.fund_address@,
        funds: vote_funds(entry.votes@),
        collected_vote_funds: entry.proposal.collected_funds as nat,
    }
}

/// The grants of a tally, in order.
pub open spec fn grants_of(tally: Seq<ProposalVotes>) -> Seq<RawGrantView> {
    tally.map_values(|entry: ProposalVotes| grant_of(entry))
}

/// What each proposal is paid: its matched amount on top of what it
/// collected.
pub open spec fn payout_amounts(grants: Seq<CalculatedGrantView>) -> Seq<nat> {
    grants.map_values(|g: CalculatedGrantView| g.grant + g.collected_vote_funds)
}

/// The transfers of a distribution: to each proposal's address what it is
/// paid, in the order of the proposals, and last the leftover to the address
/// configured for it; all in the budget's denomination.
pub open spec fn payouts(
    grants: Seq<CalculatedGrantView>,
    leftover: nat,
    denom: Seq<char>,
    leftover_addr: Seq<char>,
) -> Seq<TransferView> {
    grants.map_values(
        |g: CalculatedGrantView|
            TransferView {
                to_address: g.addr,
                denom: denom,
                amount: g.grant + g.collected_vote_funds,
            },
    ).push(TransferView { to_address: leftover_addr, denom: denom, amount: leftover })
}

/// Every number of the sequence is a 128-bit amount.
pub open spec fn payable(amounts: Seq<nat>) -> bool {
    forall|i: int| 0 <= i < amounts.len() ==> #[trigger] amounts[i] <= u128::MAX
}

/// Why a request for the distribution is refused before any grant is looked
/// at, if it is: the sender is not the admin, or else the round has been
/// distributed already, or else the voting period is still open.
pub open spec fn trigger_refusal(
    config: Config,
    distributed: bool,
    env: Env,
    sender: Seq<char>,
) -> Option<ContractError> {
    if sender != config.admin@ {
        Some(ContractError::Unauthorized)
    } else if distributed {
        Some(ContractError::AlreadyDistributed)
    } else if !config.voting_period.expired_in(env.block) {
        Some(ContractError::VotingPeriodNotExpired)
    } else {
        None
    }
}

/// What a request for the distribution is answered with.
///
/// Only the admin may ask, only once for a round, and only when the voting
/// period is over. The budget is then shared among the proposals by the
/// matching engine, whose errors are passed on. A payout that is no 128-bit
/// amount fails the request with `ArithmeticOverflow`.
pub open spec fn trigger_outcome(
    config: Config,
    distributed: bool,
    tally: Seq<ProposalVotes>,
    env: Env,
    sender: Seq<char>,
) -> Result<Seq<TransferView>, ContractError> {
    match trigger_refusal(config, distributed, env, sender) {
        Some(e) => Err(e),
        None => match clr(grants_of(tally), Some(config.budget.amount)) {
            Err(e) => Err(e),
            Ok((grants, leftover)) => if payable(payout_amounts(grants)) {
                Ok(payouts(grants, leftover, config.budget.denom@, config.leftover_addr@))
            } else {
                Err(ContractError::ArithmeticOverflow)
            },
        },
    }
}

/// The mathematical content of what `execute_trigger_distribution` returns.
pub open spec fn trigger_view(r: Result<Vec<Transfer>, ContractError>) -> Result<
    Seq<TransferView>,
    ContractError,
> {
    match r {
        Ok(transfers) => Ok(transfer_views(transfers@)),
        Err(e) => Err(e),
    }
}

/// Makes the grant of one proposal from the proposal and its votes.
fn raw_grant(entry: &ProposalVotes) -> (grant: RawGrant)
    ensures
        grant@ == grant_of(*entry),
{
    let mut funds: Vec<u128> = Vec::new();
    let mut i: usize = 0;
    while i < entry.votes.len()
        invariant
            i <= entry.votes.len(),
            funds.len() == i,
            forall|j: int| 0 <= j < i ==> funds[j] == (#[trigger] entry.votes[j]).fund.amount,
        decreases entry.votes.len() - i,
    {
        funds.push(entry.votes[i].fund.amount);
        i = i + 1;
    }
    assert(amounts(funds@) =~= vote_funds(entry.votes@));
    RawGrant {
        addr: entry.proposal.fund_address.clone(),
        funds,
        collected_vote_funds: entry.proposal.collected_funds,
    }
}

/// Makes the grants of a tally, in order.
fn collect_grants(tally: &Vec<ProposalVotes>) -> (grants: Vec<RawGrant>)
    ensures
        raw_views(grants@) == grants_of(tally@),
{
    let mut grants: Vec<RawGrant> = Vec::new();
    let mut i: usize = 0;
    while i < tally.len()
        invariant
            i <= tally.len(),
            grants.len() == i,
            forall|j: int| 0 <= j < i ==> (#[trigger] grants[j])@ == grant_of(tally[j]),
        decreases tally.len() - i,
    {
        grants.push(raw_grant(&tally[i]));
        i = i + 1;
    }
    assert(raw_views(grants@) =~= grants_of(tally@));
    grants
}

/// Decides whether the distribution may be made now.
///
/// `distributed` says whether the round has been distributed before. This
/// needs none of the round's records but the configuration and that mark;
/// `execute_trigger_distribution` makes the same checks first.
pub fn check_trigger_distribution(
    config: &Config,
    distributed: bool,
    env: &Env,
    info: &MessageInfo,
) -> (r: Result<(), ContractError>)
    ensures
        match trigger_refusal(*config, distributed, *env, info.sender@) {
            Some(e) => r == Err::<(), ContractError>(e),
            None => r is Ok,
        },
{
    if info.sender != config.admin {
        return Err(ContractError::Unauthorized);
    }
    if distributed {
        return Err(ContractError::AlreadyDistributed);
    }
    if !is_expired(&config.voting_period, &env.block) {
        return Err(ContractError::VotingPeriodNotExpired);
    }
    Ok(())
}

/// Answers a request for the distribution.
///
/// `distributed` says whether the round has been distributed before: a round
/// is distributed once, and every later request is refused with
/// `AlreadyDistributed`. `tally` holds the proposals in the order of their
/// ids, each with its votes. The answer is the list of transfers to make: one
/// to each proposal, in that order, of its matched amount and what it
/// collected, and a last one of the leftover. Nothing is returned where the
/// request fails. Where it succeeds the caller marks the round as distributed
/// together with making the transfers.
pub fn execute_trigger_distribution(
    config: &Config,
    distributed: bool,
    tally: &Vec<ProposalVotes>,
    env: &Env,
    info: &MessageInfo,
) -> (r: Result<Vec<Transfer>, ContractError>)
    ensures
        trigger_view(r) == trigger_outcome(*config, distributed, tally@, *env, info.sender@),
        r is Ok ==> !distributed,
{
    match check_trigger_distribution(config, distributed, env, info) {
        Ok(_) => {},
        Err(e) => {
            return Err(e);
        },
    }
    let grants = collect_grants(tally);
    let (distr_funds, leftover) = match distribute(
        &config.algorithm,
        grants,
        Some(config.budget.amount),
    ) {
        Ok(distribution) => distribution,
        Err(e) => {
            return Err(e);
        },
    };
    let ghost matched = calculated_views(distr_funds@);
    let ghost want = payouts(matched, leftover as nat, config.budget.denom@, config.leftover_addr@);
    let ghost outcome = trigger_outcome(*config, distributed, tally@, *env, info.sender@);
    assert(outcome == if payable(payout_amounts(matched)) {
        Ok::<Seq<TransferView>, ContractError>(want)
    } else {
        Err::<Seq<TransferView>, ContractError>(ContractError::ArithmeticOverflow)
    });
    let mut msgs: Vec<Transfer> = Vec::new();
    let mut i: usize = 0;
    while i < distr_funds.len()
        invariant
            i <= distr_funds.len(),
            outcome == trigger_outcome(*config, distributed, tally@, *env, info.sender@),
            !payable(payout_amounts(matched)) ==> outcome == Err::<
                Seq<TransferView>,
                ContractError,
            >(ContractError::ArithmeticOverflow),
            matched == calculated_views(distr_funds@),
            want == payouts(matched, leftover as nat, config.budget.denom@, config.leftover_addr@),
            msgs.len() == i,
            forall|j: int| 0 <= j < i ==> (#[trigger] msgs[j])@ == want[j],
            forall|j: int| 0 <= j < i ==> #[trigger] payout_amounts(matched)[j] <= u128::MAX,
        decreases distr_funds.len() - i,
    {
        let f = &distr_funds[i];
        if f.collected_vote_funds > u128::MAX - f.grant {
            assert(payout_amounts(matched)[i as int] > u128::MAX);
            return Err(ContractError::ArithmeticOverflow);
        }
        let msg = Transfer {
            to_address: f.addr.clone(),
            amount: Coin {
                denom: config.budget.denom.clone(),
                amount: f.grant + f.collected_vote_funds,
            },
        };
        assert(msg@ == want[i as int]);
        msgs.push(msg);
        i = i + 1;
    }
    let leftover_msg = Transfer {
        to_address: config.leftover_addr.clone(),
        amount: Coin { denom: config.budget.denom.clone(), amount: leftover },
    };
    msgs.push(leftover_msg);
    assert(transfer_views(msgs@) =~= want);
    Ok(msgs)
}

/// What the proposals of a tally have collected, in order.
pub open spec fn collected_funds(tally: Seq<ProposalVotes>) -> Seq<nat> {
    tally.map_values(|entry: ProposalVotes| entry.proposal.collected_funds as nat)
}

/// The amounts of a list of transfers, in order.
pub open spec fn transfer_amounts(transfers: Seq<TransferView>) -> Seq<nat> {
    transfers.map_values(|t: TransferView| t.amount)
}

/// Adding two sequences term by term adds their sums.
proof fn lemma_sum_termwise(a: Seq<nat>, b: Seq<nat>, c: Seq<nat>)
    requires
        a.len() == b.len(),
        a.len() == c.len(),
        forall|i: int| 0 <= i < c.len() ==> #[trigger] c[i] == a[i] + b[i],
    ensures
        sum(c) == sum(a) + sum(b),
    decreases c.len(),
{
    if c.len() > 0 {
        lemma_sum_termwise(a.drop_last(), b.drop_last(), c.drop_last());
    }
}

/// A distribution neither loses nor makes value: its transfers add up to the
/// budget and what the proposals collected.
pub proof fn lemma_distribution_balances(
    config: Config,
    distributed: bool,
    tally: Seq<ProposalVotes>,
    env: Env,
    sender: Seq<char>,
)
    ensures
        trigger_outcome(config, distributed, tally, env, sender) matches Ok(transfers) ==> sum(
            transfer_amounts(transfers),
        ) == config.budget.amount + sum(collected_funds(tally)),
{
    if let Ok(transfers) = trigger_outcome(config, distributed, tally, env, sender) {
        let budget = config.budget.amount;
        let input = grants_of(tally);
        let (grants, leftover) = clr(input, Some(budget))->Ok_0;
        lemma_clr_keeps_grants(input, Some(budget));
        lemma_budget_conserved(input, budget);
        let paid = payout_amounts(grants);
        assert(transfer_amounts(transfers).drop_last() =~= paid);
        assert(transfer_amounts(transfers).last() == leftover);
        assert forall|i: int| 0 <= i < paid.len() implies #[trigger] paid[i] == granted(grants)[i]
            + collected_funds(tally)[i] by {
            assert(grants[i].collected_vote_funds == input[i].collected_vote_funds);
        }
        lemma_sum_termwise(granted(grants), collected_funds(tally), paid);
    }
}

/// Putting one more number into a sequence, at any place, adds it to the sum.
proof fn lemma_sum_insert(s: Seq<nat>, at: int, x: nat)
    requires
        0 <= at <= s.len(),
    ensures
        sum(s.insert(at, x)) == sum(s) + x,
    decreases s.len(),
{
    if at == s.len() {
        assert(s.insert(at, x).drop_last() =~= s);
    } else {
        lemma_sum_insert(s.drop_last(), at, x);
        assert(s.insert(at, x).drop_last() =~= s.drop_last().insert(at, x));
    }
}

/// The round's books stay in balance: a proposal whose total is the sum of
/// its votes is still so once a vote has been counted, wherever among the
/// others the vote is filed.
pub proof fn lemma_vote_keeps_balance(
    before: Proposal,
    votes: Seq<Vote>,
    after: Proposal,
    vote: Vote,
    at: int,
)
    requires
        0 <= at <= votes.len(),
        before.collected_funds == sum(vote_funds(votes)),
        after.collected_funds == before.collected_funds + vote.fund.amount,
    ensures
        after.collected_funds == sum(vote_funds(votes.insert(at, vote))),
{
    lemma_sum_insert(vote_funds(votes), at, vote.fund.amount as nat);
    assert(vote_funds(votes.insert(at, vote)) =~= vote_funds(votes).insert(
        at,
        vote.fund.amount as nat,
    ));
}

/// A proposal whose total is the sum of its votes makes a consistent grant,
/// so the distribution does not refuse it as invalid input.
pub proof fn lemma_balanced_entry_is_consistent(entry: ProposalVotes)
    requires
        entry.proposal.collected_funds == sum(vote_funds(entry.votes@)),
    ensures
        consistent(grant_of(entry)),
{
}

/// A round is distributed once: whoever asks for the distribution of a round
/// that has been distributed gets no transfer. The admin is told
/// `AlreadyDistributed`, whatever the block and the tally; anybody else is
/// told `Unauthorized` as before.
pub proof fn lemma_distributed_round_pays_nothing(
    config: Config,
    tally: Seq<ProposalVotes>,
    env: Env,
    sender: Seq<char>,
)
    ensures
        trigger_outcome(config, true, tally, env, sender) is Err,
        sender == config.admin@ ==> trigger_outcome(config, true, tally, env, sender) == Err::<
            Seq<TransferView>,
            ContractError,
        >(ContractError::AlreadyDistributed),
        sender != config.admin@ ==> trigger_outcome(config, true, tally, env, sender) == Err::<
            Seq<TransferView>,
            ContractError,
        >(ContractError::Unauthorized),
{
}

/// Breadth of support in what is paid out: of two proposals of one round
/// that collected the same total, one from any number of votes and the other
/// from a single vote, the first is matched at least what the second is.
/// (What a proposal is matched is what it is paid beyond what it collected.)
pub proof fn lemma_many_small_paid_at_least_one_large(
    config: Config,
    distributed: bool,
    tally: Seq<ProposalVotes>,
    env: Env,
    sender: Seq<char>,
    many: int,
    one: int,
)
    requires
        0 <= many < tally.len(),
        0 <= one < tally.len(),
        vote_funds(tally[one].votes@) == seq![sum(vote_funds(tally[many].votes@))],
    ensures
        trigger_outcome(config, distributed, tally, env, sender) matches Ok(transfers)
            ==> transfers[one].amount - collected_funds(tally)[one] <= transfers[many].amount
            - collected_funds(tally)[many],
{
    if let Ok(transfers) = trigger_outcome(config, distributed, tally, env, sender) {
        let budget = Some(config.budget.amount);
        let input = grants_of(tally);
        let (grants, leftover) = clr(input, budget)->Ok_0;
        lemma_clr_keeps_grants(input, budget);
        lemma_many_small_matched_at_least_one_large(input, budget, many, one);
        assert(grants[one].collected_vote_funds == input[one].collected_vote_funds);
        assert(grants[many].collected_vote_funds == input[many].collected_vote_funds);
    }
}

} // verus!
