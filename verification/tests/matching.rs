use quadratic_funding::error::ContractError;
use quadratic_funding::matching::{
    assemble, calculate_clr, calculate_matched_sum, checked_total, constrain_by_budget,
    distribute, leftover, liberal_radicalism_score, validate, CalculatedGrant,
    QuadraticFundingAlgorithm, RawGrant,
};

fn grant(addr: &str, funds: &[u128]) -> RawGrant {
    RawGrant {
        addr: String::from(addr),
        funds: funds.to_vec(),
        collected_vote_funds: funds.iter().sum(),
    }
}

fn calculated(addr: &str, grant: u128, collected_vote_funds: u128) -> CalculatedGrant {
    CalculatedGrant {
        addr: String::from(addr),
        grant,
        collected_vote_funds,
    }
}

fn four_proposal_round() -> Vec<RawGrant> {
    vec![
        grant("fund_address1", &[1200, 44999, 33]),
        grant("fund_address2", &[30000, 58999]),
        grant("fund_address3", &[230000, 100]),
        grant("fund_address4", &[100000, 5]),
    ]
}

/// 16383 contributions of 2^100: the score is just below 2^128.
fn nearly_overflowing() -> Vec<u128> {
    vec![1u128 << 100; 16383]
}

#[test]
fn score_is_the_square_of_the_sum_of_the_roots() {
    assert_eq!(liberal_radicalism_score(&vec![1200, 44999, 33]), Ok(63001));
    assert_eq!(liberal_radicalism_score(&vec![30000, 58999]), Ok(172225));
    assert_eq!(liberal_radicalism_score(&vec![230000, 100]), Ok(239121));
    assert_eq!(liberal_radicalism_score(&vec![100000, 5]), Ok(101124));
    assert_eq!(liberal_radicalism_score(&vec![9]), Ok(9));
    assert_eq!(liberal_radicalism_score(&vec![10]), Ok(9));
    assert_eq!(liberal_radicalism_score(&vec![0, 0, 0]), Ok(0));
}

#[test]
fn many_small_contributions_score_higher_than_one_large() {
    let many = liberal_radicalism_score(&vec![100, 100, 100, 100]).unwrap();
    let one = liberal_radicalism_score(&vec![400]).unwrap();
    assert_eq!(many, 1600);
    assert_eq!(one, 400);
    assert!(many > one);
}

#[test]
fn contributions_score_at_least_as_high_as_their_sum_in_one() {
    let lists: [&[u128]; 6] = [
        &[3, 3],
        &[2, 2],
        &[0, 5],
        &[3, 5],
        &[1, 1, 1],
        &[7, 11, 13, 17, 19],
    ];
    for funds in lists {
        let spread = liberal_radicalism_score(&funds.to_vec()).unwrap();
        let single = liberal_radicalism_score(&vec![funds.iter().sum()]).unwrap();
        assert!(single <= spread);
    }
}

#[test]
fn spread_contributions_are_matched_at_least_what_their_sum_in_one_is() {
    let input = vec![
        grant("many", &[100, 100, 100, 100]),
        grant("one", &[400]),
        grant("pair", &[3, 5]),
        grant("single", &[8]),
    ];
    // scores 1600, 400, 9, 4; total 2013
    for budget in [Some(0u128), Some(1), Some(1000), Some(u128::MAX), None] {
        let (grants, _) = calculate_clr(input.clone(), budget).unwrap();
        assert!(grants[0].grant >= grants[1].grant);
        assert!(grants[2].grant >= grants[3].grant);
    }
    let (grants, rest) = calculate_clr(input, Some(1000)).unwrap();
    let matched: Vec<u128> = grants.iter().map(|g| g.grant).collect();
    assert_eq!(matched, vec![794, 198, 4, 1]);
    assert_eq!(rest, 3);
}

#[test]
fn score_of_no_contributions_is_zero() {
    assert_eq!(liberal_radicalism_score(&vec![]), Ok(0));
}

#[test]
fn score_that_does_not_fit_is_an_overflow() {
    assert_eq!(
        liberal_radicalism_score(&vec![u128::MAX, u128::MAX]),
        Err(ContractError::ArithmeticOverflow)
    );
    assert_eq!(
        liberal_radicalism_score(&vec![u128::MAX, 1]),
        Err(ContractError::ArithmeticOverflow)
    );
    assert_eq!(
        liberal_radicalism_score(&vec![1u128 << 100; 16384]),
        Err(ContractError::ArithmeticOverflow)
    );
}

#[test]
fn largest_scores_that_fit() {
    assert_eq!(
        liberal_radicalism_score(&vec![u128::MAX]),
        Ok(340282366920938463426481119284349108225)
    );
    assert_eq!(
        liberal_radicalism_score(&nearly_overflowing()),
        Ok(340240829813720785070575764957837656064)
    );
}

#[test]
fn checked_total_adds_up_or_gives_none() {
    assert_eq!(checked_total(&vec![]), Some(0));
    assert_eq!(checked_total(&vec![1, 2, 3]), Some(6));
    assert_eq!(checked_total(&vec![u128::MAX - 1, 1]), Some(u128::MAX));
    assert_eq!(checked_total(&vec![u128::MAX, 1]), None);
    assert_eq!(checked_total(&vec![u128::MAX, 0, u128::MAX]), None);
}

#[test]
fn four_proposal_round_with_budget() {
    let (grants, rest) = calculate_clr(four_proposal_round(), Some(550000)).unwrap();
    assert_eq!(
        grants,
        vec![
            calculated("fund_address1", 60212, 46232),
            calculated("fund_address2", 164602, 88999),
            calculated("fund_address3", 228537, 230100),
            calculated("fund_address4", 96648, 100005),
        ]
    );
    assert_eq!(rest, 1);
}

#[test]
fn four_proposal_round_pays_what_the_round_expects() {
    let (grants, rest) = calculate_clr(four_proposal_round(), Some(550000)).unwrap();
    let paid: Vec<u128> = grants
        .iter()
        .map(|g| g.grant + g.collected_vote_funds)
        .collect();
    assert_eq!(paid, vec![106444, 253601, 458637, 196653]);
    assert_eq!(rest, 1);
}

#[test]
fn matched_amounts_and_leftover_add_up_to_the_budget() {
    for budget in [0u128, 1, 2, 3, 7, 999, 550000, 1 << 100, u128::MAX] {
        let (grants, rest) = calculate_clr(four_proposal_round(), Some(budget)).unwrap();
        let matched: u128 = grants.iter().map(|g| g.grant).sum();
        assert_eq!(matched + rest, budget);
        for g in &grants {
            assert!(g.grant <= budget);
        }
    }
}

#[test]
fn order_address_and_collected_total_are_kept() {
    let input = vec![
        grant("c", &[4]),
        grant("a", &[9, 16]),
        grant("b", &[]),
        grant("a", &[1]),
    ];
    let (grants, rest) = calculate_clr(input, Some(100)).unwrap();
    // scores 4, 49, 0, 1; total 54
    assert_eq!(
        grants,
        vec![
            calculated("c", 7, 4),
            calculated("a", 90, 25),
            calculated("b", 0, 0),
            calculated("a", 1, 1),
        ]
    );
    assert_eq!(rest, 2);
}

#[test]
fn same_input_gives_the_same_output() {
    let first = calculate_clr(four_proposal_round(), Some(550000));
    let second = calculate_clr(four_proposal_round(), Some(550000));
    assert_eq!(first, second);
    let first = calculate_clr(four_proposal_round(), None);
    let second = calculate_clr(four_proposal_round(), None);
    assert_eq!(first, second);
}

#[test]
fn grant_without_votes_is_matched_with_nothing() {
    let input = vec![grant("voted", &[100, 100]), grant("silent", &[])];
    let (grants, rest) = calculate_clr(input.clone(), Some(1000)).unwrap();
    assert_eq!(grants[1], calculated("silent", 0, 0));
    assert_eq!(grants[0], calculated("voted", 1000, 200));
    assert_eq!(rest, 0);
    let (grants, _) = calculate_clr(input, None).unwrap();
    assert_eq!(grants[1], calculated("silent", 0, 0));
}

#[test]
fn round_without_any_vote_leaves_the_whole_budget() {
    let input = vec![grant("a", &[]), grant("b", &[0]), grant("c", &[])];
    let (grants, rest) = calculate_clr(input, Some(12345)).unwrap();
    assert_eq!(
        grants,
        vec![calculated("a", 0, 0), calculated("b", 0, 0), calculated("c", 0, 0)]
    );
    assert_eq!(rest, 12345);
}

#[test]
fn round_without_proposals_leaves_the_whole_budget() {
    assert_eq!(calculate_clr(vec![], Some(77)), Ok((vec![], 77)));
    assert_eq!(calculate_clr(vec![], None), Ok((vec![], 0)));
}

#[test]
fn without_budget_the_raw_scores_are_matched() {
    let (grants, rest) = calculate_clr(four_proposal_round(), None).unwrap();
    assert_eq!(
        grants,
        vec![
            calculated("fund_address1", 63001, 46232),
            calculated("fund_address2", 172225, 88999),
            calculated("fund_address3", 239121, 230100),
            calculated("fund_address4", 101124, 100005),
        ]
    );
    assert_eq!(rest, 0);
}

#[test]
fn overflowing_score_fails_the_whole_distribution() {
    let input = vec![
        grant("fine", &[100]),
        RawGrant {
            addr: String::from("huge"),
            funds: vec![1u128 << 100; 16384],
            collected_vote_funds: 1u128 << 114,
        },
    ];
    assert!(input[1].is_consistent());
    assert_eq!(
        calculate_clr(input.clone(), Some(1000)),
        Err(ContractError::ArithmeticOverflow)
    );
    assert_eq!(
        calculate_clr(input, None),
        Err(ContractError::ArithmeticOverflow)
    );
}

#[test]
fn overflowing_total_fails_under_a_budget_only() {
    let funds = nearly_overflowing();
    let collected: u128 = funds.iter().sum();
    let input = vec![
        RawGrant {
            addr: String::from("a"),
            funds: funds.clone(),
            collected_vote_funds: collected,
        },
        RawGrant {
            addr: String::from("b"),
            funds,
            collected_vote_funds: collected,
        },
    ];
    assert_eq!(
        calculate_clr(input.clone(), Some(1000)),
        Err(ContractError::ArithmeticOverflow)
    );
    let score = 340240829813720785070575764957837656064u128;
    assert_eq!(
        calculate_clr(input, None),
        Ok((
            vec![
                calculated("a", score, collected),
                calculated("b", score, collected)
            ],
            0
        ))
    );
}

#[test]
fn largest_budget_and_scores() {
    let funds = nearly_overflowing();
    let collected: u128 = funds.iter().sum();
    let input = vec![
        RawGrant {
            addr: String::from("a"),
            funds,
            collected_vote_funds: collected,
        },
        grant("b", &[1]),
        grant("c", &[4]),
    ];
    let (grants, rest) = calculate_clr(input, Some(u128::MAX)).unwrap();
    assert_eq!(
        grants,
        vec![
            calculated("a", 340282366920938463463374607431768211449, collected),
            calculated("b", 1, 1),
            calculated("c", 4, 4),
        ]
    );
    assert_eq!(rest, 1);
}

#[test]
fn collected_total_must_be_the_sum_of_the_contributions() {
    let mut input = four_proposal_round();
    input[2].collected_vote_funds += 1;
    assert!(!input[2].is_consistent());
    assert_eq!(validate(&input), Err(ContractError::InvalidInput));
    assert_eq!(
        calculate_clr(input.clone(), Some(550000)),
        Err(ContractError::InvalidInput)
    );
    assert_eq!(calculate_clr(input, None), Err(ContractError::InvalidInput));
    assert_eq!(validate(&four_proposal_round()), Ok(()));
}

#[test]
fn overflow_is_reported_before_an_inconsistent_total() {
    let input = vec![
        RawGrant {
            addr: String::from("wrong"),
            funds: vec![1, 2],
            collected_vote_funds: 4,
        },
        RawGrant {
            addr: String::from("huge"),
            funds: vec![u128::MAX, u128::MAX],
            collected_vote_funds: u128::MAX,
        },
    ];
    assert_eq!(
        calculate_clr(input, Some(10)),
        Err(ContractError::ArithmeticOverflow)
    );
}

#[test]
fn scores_of_all_grants() {
    assert_eq!(
        calculate_matched_sum(&four_proposal_round()),
        Ok(vec![63001, 172225, 239121, 101124])
    );
    assert_eq!(calculate_matched_sum(&vec![]), Ok(vec![]));
    assert_eq!(
        calculate_matched_sum(&vec![grant("a", &[1]), grant("b", &[u128::MAX, u128::MAX >> 1])]),
        Err(ContractError::ArithmeticOverflow)
    );
}

#[test]
fn shares_of_the_budget() {
    assert_eq!(
        constrain_by_budget(vec![63001, 172225, 239121, 101124], Some(550000)),
        Ok(vec![60212, 164602, 228537, 96648])
    );
    assert_eq!(
        constrain_by_budget(vec![63001, 172225], None),
        Ok(vec![63001, 172225])
    );
    assert_eq!(constrain_by_budget(vec![0, 0], Some(5)), Ok(vec![0, 0]));
    assert_eq!(constrain_by_budget(vec![1, 1, 1], Some(10)), Ok(vec![3, 3, 3]));
    assert_eq!(
        constrain_by_budget(vec![u128::MAX, 1], Some(10)),
        Err(ContractError::ArithmeticOverflow)
    );
    assert_eq!(
        constrain_by_budget(vec![u128::MAX, 1], None),
        Ok(vec![u128::MAX, 1])
    );
}

#[test]
fn leftover_is_what_remains_of_the_budget() {
    assert_eq!(leftover(550000, &vec![60212, 164602, 228537, 96648]), 1);
    assert_eq!(leftover(10, &vec![3, 3, 3]), 1);
    assert_eq!(leftover(10, &vec![]), 10);
    assert_eq!(leftover(10, &vec![10]), 0);
}

#[test]
fn assemble_pairs_in_order() {
    let grants = vec![grant("x", &[5, 6]), grant("y", &[7])];
    assert_eq!(
        assemble(&grants, &vec![40, 2]),
        vec![calculated("x", 40, 11), calculated("y", 2, 7)]
    );
    assert_eq!(assemble(&grants, &vec![40]), vec![calculated("x", 40, 11)]);
    assert_eq!(
        assemble(&grants, &vec![40, 2, 9]),
        vec![calculated("x", 40, 11), calculated("y", 2, 7)]
    );
}

#[test]
fn parameter_of_the_algorithm_changes_nothing() {
    let plain = QuadraticFundingAlgorithm::CapitalConstrainedLiberalRadicalism {
        parameter: String::new(),
    };
    let other = QuadraticFundingAlgorithm::CapitalConstrainedLiberalRadicalism {
        parameter: String::from("0.5"),
    };
    let expected = calculate_clr(four_proposal_round(), Some(550000));
    assert_eq!(distribute(&plain, four_proposal_round(), Some(550000)), expected);
    assert_eq!(distribute(&other, four_proposal_round(), Some(550000)), expected);
}
