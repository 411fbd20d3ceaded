//! Checks on what a message carries.

use vstd::prelude::*;
use crate::error::ContractError;
use crate::state::Coin;

verus! {

/// The address is on the list.
pub open spec fn listed(list: Seq<String>, who: Seq<char>) -> bool {
    exists|i: int| 0 <= i < list.len() && (#[trigger] list[i])@ == who
}

/// The list lets the address through: there is no list, or the address is on
/// it.
pub open spec fn admitted(whitelist: Option<Vec<String>>, who: Seq<char>) -> bool {
    match whitelist {
        Some(list) => listed(list@, who),
        None => true,
    }
}

/// Whether the address is on the list.
pub fn is_listed(list: &Vec<String>, who: &String) -> (b: bool)
    ensures
        b == listed(list@, who@),
{
    let mut i: usize = 0;
    while i < list.len()
        invariant
            i <= list.len(),
            forall|j: int| 0 <= j < i ==> (#[trigger] list@[j])@ != who@,
        decreases list.len() - i,
    {
        if list[i] == *who {
            assert(list@[i as int]@ == who@);
            return true;
        }
        i = i + 1;
    }
    false
}

/// Whether the whitelist lets the address through.
pub fn is_admitted(whitelist: &Option<Vec<String>>, who: &String) -> (b: bool)
    ensures
        b == admitted(*whitelist, who@),
{
    match whitelist {
        Some(list) => is_listed(list, who),
        None => true,
    }
}

/// The funds are one coin of the round's denomination.
pub open spec fn is_budget_coin(sent_funds: Seq<Coin>, denom: Seq<char>) -> bool {
    sent_funds.len() == 1 && sent_funds[0].denom@ == denom
}

/// The error says what keeps the funds from being one coin of the round's
/// denomination: `WrongCoinSent` unless they are exactly one coin, else
/// `WrongFundCoin` with the denomination asked for and the one that came.
pub open spec fn is_budget_coin_error(
    sent_funds: Seq<Coin>,
    denom: Seq<char>,
    e: ContractError,
) -> bool {
    if sent_funds.len() != 1 {
        e == ContractError::WrongCoinSent
    } else {
        &&& sent_funds[0].denom@ != denom
        &&& e matches ContractError::WrongFundCoin { expected, got }
        &&& expected@ == denom
        &&& got@ == sent_funds[0].denom@
    }
}

/// Takes the one coin that a message must carry.
///
/// Fails with `WrongCoinSent` unless the message carries exactly one coin,
/// and with `WrongFundCoin`, which names both denominations, where that coin
/// is not of the denomination asked for.
pub fn extract_budget_coin(sent_funds: &Vec<Coin>, denom: &String) -> (r: Result<
    Coin,
    ContractError,
>)
    ensures
        match r {
            Ok(coin) => {
                &&& is_budget_coin(sent_funds@, denom@)
                &&& coin.denom@ == denom@
                &&& coin.amount == sent_funds[0].amount
            },
            Err(e) => is_budget_coin_error(sent_funds@, denom@, e),
        },
{
    if sent_funds.len() != 1 {
        return Err(ContractError::WrongCoinSent);
    }
    if sent_funds[0].denom != *denom {
        return Err(
            ContractError::WrongFundCoin {
                expected: denom.clone(),
                got: sent_funds[0].denom.clone(),
            },
        );
    }
    Ok(Coin { denom: sent_funds[0].denom.clone(), amount: sent_funds[0].amount })
}

} // verus!
