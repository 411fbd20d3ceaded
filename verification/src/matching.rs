//! The matching engine: capital-constrained liberal radicalism.
//!
//! A proposal's raw score is the square of the sum of the integer square
//! roots of its contributions. With a budget, each proposal is matched with
//! the budget's share that its score has in the total of all scores, rounded
//! down; what rounding leaves of the budget is the leftover. Without a budget
//! the raw scores are the matched amounts.
//!
//! All arithmetic is on integers, so that every run on the same grants gives
//! the same amounts.

use vstd::prelude::*;
use vstd::arithmetic::div_mod::lemma_div_is_ordered;
use crate::error::ContractError;
use crate::ratio::{lemma_scaled_floor_times_whole, mul_div_floor, scaled_floor};
use crate::sqrt::{
    floor_sqrt,
    integer_sqrt,
    lemma_floor_sqrt_of_zero,
    lemma_floor_sqrt_subadditive,
};

verus! {

/// The formula by which a round matches contributions.
#[derive(Debug, Clone, PartialEq, Eq)]
pub enum QuadraticFundingAlgorithm {
    /// Liberal radicalism under a fixed budget. The parameter is reserved: no
    /// amount depends on it.
    CapitalConstrainedLiberalRadicalism { parameter: String },
}

/// What one proposal brings to the distribution.
#[derive(Debug, Clone, PartialEq, Eq)]
pub struct RawGrant {
    /// Who receives the proposal's funds.
    pub addr: String,
    /// The contributions, one per voter, in the smallest unit of the round's
    /// denomination.
    pub funds: Vec<u128>,
    /// The sum of the contributions, as the round recorded it.
    pub collected_vote_funds: u128,
}

/// What one proposal takes from the distribution.
#[derive(Debug, Clone, PartialEq, Eq)]
pub struct CalculatedGrant {
    /// Who receives the proposal's funds.
    pub addr: String,
    /// The amount matched from the budget.
    pub grant: u128,
    /// The sum of the contributions, passed through unchanged.
    pub collected_vote_funds: u128,
}

/// The mathematical content of a [`RawGrant`].
pub struct RawGrantView {
    pub addr: Seq<char>,
    pub funds: Seq<nat>,
    pub collected_vote_funds: nat,
}

/// The mathematical content of a [`CalculatedGrant`].
pub struct CalculatedGrantView {
    pub addr: Seq<char>,
    pub grant: nat,
    pub collected_vote_funds: nat,
}

impl View for RawGrant {
    type V = RawGrantView;

    open spec fn view(&self) -> RawGrantView {
        RawGrantView {
            addr: self.addr@,
            funds: amounts(self.funds@),
            collected_vote_funds: self.collected_vote_funds as nat,
        }
    }
}

impl View for CalculatedGrant {
    type V = CalculatedGrantView;

    open spec fn view(&self) -> CalculatedGrantView {
        CalculatedGrantView {
            addr: self.addr@,
            grant: self.grant as nat,
            collected_vote_funds: self.collected_vote_funds as nat,
        }
    }
}

/// The views of a list of raw grants, in order.
pub open spec fn raw_views(grants: Seq<RawGrant>) -> Seq<RawGrantView> {
    grants.map_values(|g: RawGrant| g@)
}

/// The views of a list of calculated grants, in order.
pub open spec fn calculated_views(grants: Seq<CalculatedGrant>) -> Seq<CalculatedGrantView> {
    grants.map_values(|g: CalculatedGrant| g@)
}

/// A sequence of 128-bit amounts as natural numbers.
pub open spec fn amounts(v: Seq<u128>) -> Seq<nat> {
    v.map_values(|x: u128| x as nat)
}

/// The sum of a sequence of natural numbers.
pub open spec fn sum(s: Seq<nat>) -> nat
    decreases s.len(),
{
    if s.len() == 0 {
        0
    } else {
        sum(s.drop_last()) + s.last()
    }
}

/// The integer square roots of a sequence of contributions.
pub open spec fn roots(funds: Seq<nat>) -> Seq<nat> {
    funds.map_values(|x: nat| floor_sqrt(x))
}

/// The liberal-radicalism score of one proposal: the square of the sum of the
/// integer square roots of its contributions.
pub open spec fn raw_score(funds: Seq<nat>) -> nat {
    sum(roots(funds)) * sum(roots(funds))
}

/// The raw scores of a list of grants, in order.
pub open spec fn scores(grants: Seq<RawGrantView>) -> Seq<nat> {
    grants.map_values(|g: RawGrantView| raw_score(g.funds))
}

/// The grant's collected total is the sum of its contributions.
pub open spec fn consistent(grant: RawGrantView) -> bool {
    sum(grant.funds) == grant.collected_vote_funds
}

/// Every grant's collected total is the sum of its contributions.
pub open spec fn all_consistent(grants: Seq<RawGrantView>) -> bool {
    forall|i: int| 0 <= i < grants.len() ==> consistent(#[trigger] grants[i])
}

/// Every number of the sequence is a 128-bit amount.
pub open spec fn all_fit(s: Seq<nat>) -> bool {
    forall|i: int| 0 <= i < s.len() ==> #[trigger] s[i] <= u128::MAX
}

/// The engine cannot represent what the distribution needs: a score, or,
/// under a budget, the total of the scores.
pub open spec fn overflows(scores: Seq<nat>, budget: Option<u128>) -> bool {
    !all_fit(scores) || (budget is Some && sum(scores) > u128::MAX)
}

/// The budget's share for one score among a total: `budget * score / total`
/// rounded down, and nothing where nobody voted at all.
pub open spec fn share(budget: nat, score: nat, total: nat) -> nat {
    if total == 0 {
        0
    } else {
        scaled_floor(budget, score, total)
    }
}

/// The matched amounts for a list of scores: under a budget each score's
/// share of it, without one the scores themselves.
pub open spec fn matched_amounts(scores: Seq<nat>, budget: Option<u128>) -> Seq<nat> {
    match budget {
        Some(b) => scores.map_values(|s: nat| share(b as nat, s, sum(scores))),
        None => scores,
    }
}

/// What the matched amounts leave of the budget; nothing where there is no
/// budget.
pub open spec fn leftover_amount(scores: Seq<nat>, budget: Option<u128>) -> nat {
    match budget {
        Some(b) => (b - sum(matched_amounts(scores, budget))) as nat,
        None => 0,
    }
}

/// Each grant's address and collected total beside its matched amount, in the
/// order of the grants, as far as both lists go.
pub open spec fn assembled(grants: Seq<RawGrantView>, matched: Seq<nat>) -> Seq<
    CalculatedGrantView,
> {
    Seq::new(
        if grants.len() <= matched.len() {
            grants.len()
        } else {
            matched.len()
        },
        |i: int|
            CalculatedGrantView {
                addr: grants[i].addr,
                grant: matched[i],
                collected_vote_funds: grants[i].collected_vote_funds,
            },
    )
}

/// The matched amounts of a list of calculated grants, in order.
pub open spec fn granted(grants: Seq<CalculatedGrantView>) -> Seq<nat> {
    grants.map_values(|g: CalculatedGrantView| g.grant)
}

/// What a distribution gives: the calculated grants and the leftover, or the
/// reason why there are none.
///
/// It fails with `ArithmeticOverflow` where a score or, under a budget, the
/// total of the scores is no 128-bit amount; else with `InvalidInput` where a
/// grant's collected total is not the sum of its contributions.
pub open spec fn clr(grants: Seq<RawGrantView>, budget: Option<u128>) -> Result<
    (Seq<CalculatedGrantView>, nat),
    ContractError,
> {
    if overflows(scores(grants), budget) {
        Err(ContractError::ArithmeticOverflow)
    } else if !all_consistent(grants) {
        Err(ContractError::InvalidInput)
    } else {
        Ok(
            (
                assembled(grants, matched_amounts(scores(grants), budget)),
                leftover_amount(scores(grants), budget),
            ),
        )
    }
}

/// The mathematical content of what `calculate_clr` returns.
pub open spec fn outcome_view(r: Result<(Vec<CalculatedGrant>, u128), ContractError>) -> Result<
    (Seq<CalculatedGrantView>, nat),
    ContractError,
> {
    match r {
        Ok((grants, leftover)) => Ok((calculated_views(grants@), leftover as nat)),
        Err(e) => Err(e),
    }
}

/// The first `i` terms of a sum, and the next one, make the first `i + 1`.
pub proof fn lemma_sum_take_next(s: Seq<nat>, i: int)
    requires
        0 <= i < s.len(),
    ensures
        sum(s.take(i + 1)) == sum(s.take(i)) + s[i],
{
    assert(s.take(i + 1).drop_last() =~= s.take(i));
}

/// A sum of natural numbers is at least each sum of its first terms.
pub proof fn lemma_sum_take_at_most_sum(s: Seq<nat>, i: int)
    requires
        0 <= i <= s.len(),
    ensures
        sum(s.take(i)) <= sum(s),
    decreases s.len() - i,
{
    if i == s.len() {
        assert(s.take(i) =~= s);
    } else {
        lemma_sum_take_next(s, i);
        lemma_sum_take_at_most_sum(s, i + 1);
    }
}

/// A sum of natural numbers is at least each of its terms.
pub proof fn lemma_sum_at_least_term(s: Seq<nat>, i: int)
    requires
        0 <= i < s.len(),
    ensures
        s[i] <= sum(s),
{
    lemma_sum_take_next(s, i);
    lemma_sum_take_at_most_sum(s, i + 1);
}

/// Scores one proposal.
///
/// The roots are below `2^64` each and are added in 128 bits. The score is
/// returned where it fits in 128 bits; the call fails with
/// `ArithmeticOverflow` exactly where it does not.
pub fn liberal_radicalism_score(funds: &Vec<u128>) -> (r: Result<u128, ContractError>)
    ensures
        match r {
            Ok(score) => score == raw_score(amounts(funds@)),
            Err(e) => e == ContractError::ArithmeticOverflow && raw_score(amounts(funds@))
                > u128::MAX,
        },
{
    let ghost all = roots(amounts(funds@));
    let mut roots_sum: u128 = 0;
    let mut i: usize = 0;
    while i < funds.len()
        invariant
            i <= funds.len(),
            all == roots(amounts(funds@)),
            roots_sum == sum(all.take(i as int)),
            roots_sum <= u64::MAX,
        decreases funds.len() - i,
    {
        let root: u128 = integer_sqrt(funds[i]);
        proof {
            lemma_sum_take_next(all, i as int);
        }
        roots_sum = roots_sum + root;
        if roots_sum > 0xFFFF_FFFF_FFFF_FFFF {
            proof {
                lemma_sum_take_at_most_sum(all, i + 1);
                let total = sum(all);
                assert(total * total >= 0x1_0000_0000_0000_0000 * 0x1_0000_0000_0000_0000)
                    by (nonlinear_arith)
                    requires
                        total >= 0x1_0000_0000_0000_0000,
                ;
            }
            return Err(ContractError::ArithmeticOverflow);
        }
        i = i + 1;
    }
    proof {
        assert(all.take(i as int) =~= all);
        assert(roots_sum * roots_sum <= 0xFFFF_FFFF_FFFF_FFFF * 0xFFFF_FFFF_FFFF_FFFF)
            by (nonlinear_arith)
            requires
                roots_sum <= 0xFFFF_FFFF_FFFF_FFFF,
        ;
    }
    Ok(roots_sum * roots_sum)
}

/// Adds up a list of amounts; `None` exactly where the sum is no 128-bit
/// amount.
pub fn checked_total(values: &Vec<u128>) -> (r: Option<u128>)
    ensures
        match r {
            Some(total) => total == sum(amounts(values@)),
            None => sum(amounts(values@)) > u128::MAX,
        },
{
    let ghost all = amounts(values@);
    let mut total: u128 = 0;
    let mut i: usize = 0;
    while i < values.len()
        invariant
            i <= values.len(),
            all == amounts(values@),
            total == sum(all.take(i as int)),
        decreases values.len() - i,
    {
        proof {
            lemma_sum_take_next(all, i as int);
            lemma_sum_take_at_most_sum(all, i + 1);
        }
        if values[i] > u128::MAX - total {
            return None;
        }
        total = total + values[i];
        i = i + 1;
    }
    proof {
        assert(all.take(i as int) =~= all);
    }
    Some(total)
}

impl RawGrant {
    /// Whether the collected total is the sum of the contributions.
    pub fn is_consistent(&self) -> (b: bool)
        ensures
            b == consistent(self@),
    {
        match checked_total(&self.funds) {
            Some(total) => total == self.collected_vote_funds,
            None => false,
        }
    }
}

/// Checks every grant's collected total against its contributions.
pub fn validate(grants: &Vec<RawGrant>) -> (r: Result<(), ContractError>)
    ensures
        match r {
            Ok(_) => all_consistent(raw_views(grants@)),
            Err(e) => e == ContractError::InvalidInput && !all_consistent(raw_views(grants@)),
        },
{
    let ghost views = raw_views(grants@);
    let mut i: usize = 0;
    while i < grants.len()
        invariant
            i <= grants.len(),
            views == raw_views(grants@),
            forall|j: int| 0 <= j < i ==> consistent(#[trigger] views[j]),
        decreases grants.len() - i,
    {
        if !grants[i].is_consistent() {
            assert(!consistent(views[i as int]));
            return Err(ContractError::InvalidInput);
        }
        i = i + 1;
    }
    Ok(())
}

/// Scores every grant, in order.
///
/// Fails with `ArithmeticOverflow` exactly where some score is no 128-bit
/// amount.
pub fn calculate_matched_sum(grants: &Vec<RawGrant>) -> (r: Result<Vec<u128>, ContractError>)
    ensures
        match r {
            Ok(raw) => amounts(raw@) == scores(raw_views(grants@)),
            Err(e) => e == ContractError::ArithmeticOverflow && !all_fit(
                scores(raw_views(grants@)),
            ),
        },
{
    let ghost all = scores(raw_views(grants@));
    let mut raw: Vec<u128> = Vec::new();
    let mut i: usize = 0;
    while i < grants.len()
        invariant
            i <= grants.len(),
            all == scores(raw_views(grants@)),
            raw.len() == i,
            forall|j: int| 0 <= j < i ==> raw[j] == #[trigger] all[j],
        decreases grants.len() - i,
    {
        match liberal_radicalism_score(&grants[i].funds) {
            Ok(score) => {
                raw.push(score);
            },
            Err(e) => {
                assert(all[i as int] > u128::MAX);
                return Err(e);
            },
        }
        i = i + 1;
    }
    assert(amounts(raw@) =~= all);
    Ok(raw)
}

/// Under a budget, rounding down gives out no more than the scores' share:
/// the first `i` matched amounts times the total are at most the budget times
/// the first `i` scores.
proof fn lemma_shares_below_exact(scores: Seq<nat>, budget: u128, i: int)
    requires
        0 <= i <= scores.len(),
        sum(scores) > 0,
    ensures
        sum(matched_amounts(scores, Some(budget)).take(i)) * sum(scores) <= budget * sum(
            scores.take(i),
        ),
    decreases i,
{
    let matched = matched_amounts(scores, Some(budget));
    let total = sum(scores);
    if i == 0 {
        assert(sum(matched.take(0)) == 0);
        assert(sum(scores.take(0)) == 0);
        assert(0 * total <= budget * 0) by (nonlinear_arith);
    } else {
        lemma_shares_below_exact(scores, budget, i - 1);
        lemma_sum_take_next(matched, i - 1);
        lemma_sum_take_next(scores, i - 1);
        lemma_scaled_floor_times_whole(budget as nat, scores[i - 1], total);
        let m0 = sum(matched.take(i - 1));
        let s0 = sum(scores.take(i - 1));
        let m = matched[i - 1];
        let s = scores[i - 1];
        assert(m == scaled_floor(budget as nat, s, total));
        assert((m0 + m) * total <= budget * (s0 + s)) by (nonlinear_arith)
            requires
                m0 * total <= budget * s0,
                m * total <= budget * s,
        ;
    }
}

/// Where nobody voted at all, nothing is matched.
proof fn lemma_no_votes_no_match(scores: Seq<nat>, budget: u128, i: int)
    requires
        0 <= i <= scores.len(),
        sum(scores) == 0,
    ensures
        sum(matched_amounts(scores, Some(budget)).take(i)) == 0,
    decreases i,
{
    let matched = matched_amounts(scores, Some(budget));
    if i > 0 {
        lemma_no_votes_no_match(scores, budget, i - 1);
        lemma_sum_take_next(matched, i - 1);
    }
}

/// The matched amounts never add up to more than the budget.
pub proof fn lemma_matched_within_budget(scores: Seq<nat>, budget: u128)
    ensures
        sum(matched_amounts(scores, Some(budget))) <= budget,
{
    let matched = matched_amounts(scores, Some(budget));
    let total = sum(scores);
    let n = scores.len() as int;
    assert(matched.take(n) =~= matched);
    assert(scores.take(n) =~= scores);
    if total == 0 {
        lemma_no_votes_no_match(scores, budget, n);
    } else {
        lemma_shares_below_exact(scores, budget, n);
        let m = sum(matched);
        assert(m <= budget) by (nonlinear_arith)
            requires
                m * total <= budget * total,
                total > 0,
        ;
    }
}

/// Shares the budget among the scores.
///
/// Under a budget each score gets `budget * score / total` rounded down, the
/// product taken exactly however large it is, and nothing where the total is
/// zero. Without a budget the scores come back as they are. Fails with
/// `ArithmeticOverflow` exactly where there is a budget and the total of the
/// scores is no 128-bit amount.
pub fn constrain_by_budget(raw: Vec<u128>, budget: Option<u128>) -> (r: Result<
    Vec<u128>,
    ContractError,
>)
    ensures
        match r {
            Ok(matched) => amounts(matched@) == matched_amounts(amounts(raw@), budget) && !(
            budget is Some && sum(amounts(raw@)) > u128::MAX),
            Err(e) => e == ContractError::ArithmeticOverflow && budget is Some && sum(
                amounts(raw@),
            ) > u128::MAX,
        },
{
    let b: u128 = match budget {
        Some(b) => b,
        None => {
            return Ok(raw);
        },
    };
    let total: u128 = match checked_total(&raw) {
        Some(total) => total,
        None => {
            return Err(ContractError::ArithmeticOverflow);
        },
    };
    let ghost all = amounts(raw@);
    let ghost want = matched_amounts(all, budget);
    let mut matched: Vec<u128> = Vec::new();
    let mut i: usize = 0;
    while i < raw.len()
        invariant
            i <= raw.len(),
            all == amounts(raw@),
            want == matched_amounts(all, Some(b)),
            total == sum(all),
            matched.len() == i,
            forall|j: int| 0 <= j < i ==> matched[j] == #[trigger] want[j],
        decreases raw.len() - i,
    {
        let amount: u128 = if total == 0 {
            0
        } else {
            proof {
                lemma_sum_at_least_term(all, i as int);
            }
            mul_div_floor(b, raw[i], total)
        };
        matched.push(amount);
        i = i + 1;
    }
    assert(amounts(matched@) =~= want);
    Ok(matched)
}

/// What the matched amounts leave of the budget.
pub fn leftover(budget: u128, matched: &Vec<u128>) -> (rest: u128)
    requires
        sum(amounts(matched@)) <= budget,
    ensures
        rest == budget - sum(amounts(matched@)),
{
    let ghost all = amounts(matched@);
    let mut rest: u128 = budget;
    let mut i: usize = 0;
    while i < matched.len()
        invariant
            i <= matched.len(),
            all == amounts(matched@),
            sum(all) <= budget,
            rest == budget - sum(all.take(i as int)),
        decreases matched.len() - i,
    {
        proof {
            lemma_sum_take_next(all, i as int);
            lemma_sum_take_at_most_sum(all, i + 1);
        }
        rest = rest - matched[i];
        i = i + 1;
    }
    proof {
        assert(all.take(i as int) =~= all);
    }
    rest
}

/// Puts each matched amount beside the address and the collected total of
/// its grant, in the order of the grants, as far as both lists go.
pub fn assemble(grants: &Vec<RawGrant>, matched: &Vec<u128>) -> (out: Vec<CalculatedGrant>)
    ensures
        calculated_views(out@) == assembled(raw_views(grants@), amounts(matched@)),
{
    let n: usize = if grants.len() <= matched.len() {
        grants.len()
    } else {
        matched.len()
    };
    let ghost want = assembled(raw_views(grants@), amounts(matched@));
    let mut out: Vec<CalculatedGrant> = Vec::new();
    let mut i: usize = 0;
    while i < n
        invariant
            i <= n,
            n <= grants.len(),
            n <= matched.len(),
            want == assembled(raw_views(grants@), amounts(matched@)),
            want.len() == n,
            out.len() == i,
            forall|j: int| 0 <= j < i ==> (#[trigger] out[j])@ == want[j],
        decreases n - i,
    {
        let grant = CalculatedGrant {
            addr: grants[i].addr.clone(),
            grant: matched[i],
            collected_vote_funds: grants[i].collected_vote_funds,
        };
        assert(grant@ == want[i as int]);
        out.push(grant);
        i = i + 1;
    }
    assert(calculated_views(out@) =~= want);
    out
}

/// Computes the distribution by capital-constrained liberal radicalism.
///
/// The grants come back in the order in which they were given, each with its
/// matched amount, and beside them the leftover: what the matched amounts
/// leave of the budget. Without a budget the matched amounts are the raw
/// scores and the leftover is zero.
///
/// The call fails as a whole or not at all: with `ArithmeticOverflow` where a
/// score or, under a budget, the total of the scores is no 128-bit amount;
/// else with `InvalidInput` where a grant's collected total is not the sum of
/// its contributions.
pub fn calculate_clr(grants: Vec<RawGrant>, budget: Option<u128>) -> (r: Result<
    (Vec<CalculatedGrant>, u128),
    ContractError,
>)
    ensures
        outcome_view(r) == clr(raw_views(grants@), budget),
        r matches Ok((out, rest)) ==> {
            &&& out.len() == grants.len()
            &&& budget matches Some(b) ==> sum(granted(calculated_views(out@))) + rest == b
        },
{
    let ghost views = raw_views(grants@);
    proof {
        lemma_clr_keeps_grants(views, budget);
        if let Some(b) = budget {
            lemma_budget_conserved(views, b);
        }
    }
    let raw = match calculate_matched_sum(&grants) {
        Ok(raw) => raw,
        Err(e) => {
            return Err(e);
        },
    };
    let ghost all = amounts(raw@);
    assert(all_fit(all)) by {
        assert forall|i: int| 0 <= i < all.len() implies #[trigger] all[i] <= u128::MAX by {
            assert(all[i] == raw@[i]);
        }
    }
    let matched = match constrain_by_budget(raw, budget) {
        Ok(matched) => matched,
        Err(e) => {
            return Err(e);
        },
    };
    match validate(&grants) {
        Ok(_) => {},
        Err(e) => {
            return Err(e);
        },
    }
    let rest: u128 = match budget {
        Some(b) => {
            proof {
                lemma_matched_within_budget(all, b);
            }
            leftover(b, &matched)
        },
        None => 0,
    };
    let out = assemble(&grants, &matched);
    Ok((out, rest))
}

/// Computes the distribution by the given formula.
///
/// The formulas form a closed set and each of them is implemented, so no
/// call fails with `UnsupportedAlgorithm`. The one formula there is takes no
/// account of its parameter.
pub fn distribute(
    algorithm: &QuadraticFundingAlgorithm,
    grants: Vec<RawGrant>,
    budget: Option<u128>,
) -> (r: Result<(Vec<CalculatedGrant>, u128), ContractError>)
    ensures
        outcome_view(r) == clr(raw_views(grants@), budget),
        r matches Ok((out, rest)) ==> {
            &&& out.len() == grants.len()
            &&& budget matches Some(b) ==> sum(granted(calculated_views(out@))) + rest == b
        },
        r matches Err(e) ==> e != ContractError::UnsupportedAlgorithm,
{
    match algorithm {
        QuadraticFundingAlgorithm::CapitalConstrainedLiberalRadicalism { .. } => calculate_clr(
            grants,
            budget,
        ),
    }
}

/// A distribution that succeeds keeps the grants: as many come back as went
/// in, in the same order, each with its own address and collected total, and
/// with the matched amount that belongs to its score.
pub proof fn lemma_clr_keeps_grants(grants: Seq<RawGrantView>, budget: Option<u128>)
    ensures
        clr(grants, budget) matches Ok((out, rest)) ==> {
            &&& out.len() == grants.len()
            &&& granted(out) == matched_amounts(scores(grants), budget)
            &&& forall|i: int|
                0 <= i < grants.len() ==> {
                    &&& (#[trigger] out[i]).addr == grants[i].addr
                    &&& out[i].collected_vote_funds == grants[i].collected_vote_funds
                }
        },
{
    if let Ok((out, rest)) = clr(grants, budget) {
        assert(granted(out) =~= matched_amounts(scores(grants), budget));
    }
}

/// Conservation: under a budget, the matched amounts and the leftover add up
/// to the budget exactly.
pub proof fn lemma_budget_conserved(grants: Seq<RawGrantView>, budget: u128)
    ensures
        clr(grants, Some(budget)) matches Ok((out, rest)) ==> sum(granted(out)) + rest == budget,
{
    lemma_clr_keeps_grants(grants, Some(budget));
    lemma_matched_within_budget(scores(grants), budget);
}

/// Cap: under a budget no matched amount exceeds the budget. (Amounts are
/// natural numbers, so none is negative.)
pub proof fn lemma_matched_at_most_budget(grants: Seq<RawGrantView>, budget: u128, i: int)
    requires
        0 <= i < grants.len(),
    ensures
        clr(grants, Some(budget)) matches Ok((out, rest)) ==> out[i].grant <= budget,
{
    lemma_clr_keeps_grants(grants, Some(budget));
    lemma_matched_within_budget(scores(grants), budget);
    if let Ok((out, rest)) = clr(grants, Some(budget)) {
        lemma_sum_at_least_term(granted(out), i);
    }
}

/// Determinism: what `calculate_clr` returns is fixed by the content of the
/// grants, their order included, and by the budget. Any two results that
/// meet its contract on grants of the same content have the same content.
pub proof fn lemma_same_input_same_outcome(
    grants1: Seq<RawGrant>,
    grants2: Seq<RawGrant>,
    budget: Option<u128>,
    r1: Result<(Vec<CalculatedGrant>, u128), ContractError>,
    r2: Result<(Vec<CalculatedGrant>, u128), ContractError>,
)
    requires
        raw_views(grants1) == raw_views(grants2),
        outcome_view(r1) == clr(raw_views(grants1), budget),
        outcome_view(r2) == clr(raw_views(grants2), budget),
    ensures
        outcome_view(r1) == outcome_view(r2),
{
}

/// The integer square root of a sum is at most the sum of the integer square
/// roots of its terms.
proof fn lemma_root_of_sum_at_most_sum_of_roots(funds: Seq<nat>)
    ensures
        floor_sqrt(sum(funds)) <= sum(roots(funds)),
    decreases funds.len(),
{
    if funds.len() == 0 {
        lemma_floor_sqrt_of_zero();
    } else {
        lemma_root_of_sum_at_most_sum_of_roots(funds.drop_last());
        lemma_floor_sqrt_subadditive(sum(funds.drop_last()), funds.last());
        assert(roots(funds).drop_last() =~= roots(funds.drop_last()));
    }
}

/// Breadth of support: contributions score at least as high as their sum
/// would if one voter had given all of it.
pub proof fn lemma_many_small_score_at_least_one_large(funds: Seq<nat>)
    ensures
        raw_score(seq![sum(funds)]) <= raw_score(funds),
{
    let one = seq![sum(funds)];
    assert(sum(roots(one).drop_last()) == 0);
    assert(sum(roots(one)) == floor_sqrt(sum(funds)));
    lemma_root_of_sum_at_most_sum_of_roots(funds);
    let x = sum(roots(one));
    let y = sum(roots(funds));
    assert(x * x <= y * y) by (nonlinear_arith)
        requires
            x <= y,
    ;
}

/// A share of the budget never shrinks when the score grows.
pub proof fn lemma_share_monotonic(budget: nat, low: nat, high: nat, total: nat)
    requires
        low <= high,
    ensures
        share(budget, low, total) <= share(budget, high, total),
{
    if total != 0 {
        assert(budget * low <= budget * high) by (nonlinear_arith)
            requires
                low <= high,
        ;
        lemma_div_is_ordered((budget * low) as int, (budget * high) as int, total as int);
    }
}

/// Breadth of support in the matched amounts: of two grants of one
/// distribution with the same total contribution, one from any number of
/// contributions and the other from a single one, the first is matched at
/// least what the second is, with a budget and without.
pub proof fn lemma_many_small_matched_at_least_one_large(
    grants: Seq<RawGrantView>,
    budget: Option<u128>,
    many: int,
    one: int,
)
    requires
        0 <= many < grants.len(),
        0 <= one < grants.len(),
        grants[one].funds == seq![sum(grants[many].funds)],
    ensures
        clr(grants, budget) matches Ok((out, rest)) ==> out[one].grant <= out[many].grant,
{
    lemma_many_small_score_at_least_one_large(grants[many].funds);
    if let Some(b) = budget {
        lemma_share_monotonic(
            b as nat,
            raw_score(grants[one].funds),
            raw_score(grants[many].funds),
            sum(scores(grants)),
        );
    }
}

/// A grant without votes scores zero and is matched with nothing, whatever
/// the budget.
pub proof fn lemma_zero_vote_grant(grants: Seq<RawGrantView>, budget: Option<u128>, i: int)
    requires
        0 <= i < grants.len(),
        grants[i].funds.len() == 0,
    ensures
        raw_score(grants[i].funds) == 0,
        clr(grants, budget) matches Ok((out, rest)) ==> out[i].grant == 0,
{
    assert(sum(roots(grants[i].funds)) == 0);
    assert(raw_score(grants[i].funds) == 0) by (nonlinear_arith)
        requires
            raw_score(grants[i].funds) == sum(roots(grants[i].funds)) * sum(
                roots(grants[i].funds),
            ),
            sum(roots(grants[i].funds)) == 0,
    ;
    if let Some(b) = budget {
        let total = sum(scores(grants));
        if total != 0 {
            assert(b as nat * 0 == 0) by (nonlinear_arith);
            assert(0nat / total == 0) by (nonlinear_arith)
                requires
                    total > 0,
            ;
        }
    }
}

/// Without a budget every grant is matched with its raw score, and nothing is
/// left over.
pub proof fn lemma_unconstrained_is_raw_score(grants: Seq<RawGrantView>)
    ensures
        clr(grants, None) matches Ok((out, rest)) ==> {
            &&& rest == 0
            &&& out.len() == grants.len()
            &&& forall|i: int|
                0 <= i < grants.len() ==> (#[trigger] out[i]).grant == raw_score(grants[i].funds)
        },
{
}

/// A contribution list whose score is no 128-bit amount makes the whole
/// distribution fail with `ArithmeticOverflow`.
pub proof fn lemma_overflow_rejected(grants: Seq<RawGrantView>, budget: Option<u128>, i: int)
    requires
        0 <= i < grants.len(),
        raw_score(grants[i].funds) > u128::MAX,
    ensures
        clr(grants, budget) == Err::<(Seq<CalculatedGrantView>, nat), ContractError>(
            ContractError::ArithmeticOverflow,
        ),
{
    assert(scores(grants)[i] > u128::MAX);
}

} // verus!
