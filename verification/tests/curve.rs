use social_tokens::curve::{
    purchase_return, sale_return, BondingCurveInterface, MAX_RESERVE_RATIO, MINT_RESERVE_RATIO,
};
use social_tokens::error::TokenError;
use social_tokens::registry::SocialTokens;

fn power_purchase(supply: u128, reserve: u128, ratio: u32, deposit: u128) -> u128 {
    let r = ratio as f64 / 1_000_000.0;
    (supply as f64 * ((1.0 + deposit as f64 / reserve as f64).powf(r) - 1.0)).ceil() as u128
}

fn power_sale(supply: u128, reserve: u128, ratio: u32, sell: u128) -> u128 {
    let r = ratio as f64 / 1_000_000.0;
    (reserve as f64 * (1.0 - (1.0 - sell as f64 / supply as f64).powf(1.0 / r))).ceil().abs() as u128
}

#[test]
fn purchase_of_nothing_buys_nothing() {
    assert_eq!(purchase_return(100, 10, MINT_RESERVE_RATIO, 0, 77), Ok(0));
    assert_eq!(purchase_return(100, 10, MAX_RESERVE_RATIO, 0, 77), Ok(0));
    assert_eq!(purchase_return(0, 0, 1, 0, 5), Ok(0));
}

#[test]
fn sale_of_nothing_releases_nothing() {
    assert_eq!(sale_return(100, 10, MINT_RESERVE_RATIO, 0, 77), Ok(0));
    assert_eq!(sale_return(100, 10, MAX_RESERVE_RATIO, 0, 77), Ok(0));
    assert_eq!(sale_return(0, 5, MINT_RESERVE_RATIO, 0, 77), Ok(0));
}

#[test]
fn ratio_above_one_is_refused() {
    assert_eq!(
        purchase_return(100, 10, MAX_RESERVE_RATIO + 1, 5, 1),
        Err(TokenError::InvalidCurveParameters)
    );
    assert_eq!(
        purchase_return(100, 10, MAX_RESERVE_RATIO + 1, 0, 1),
        Err(TokenError::InvalidCurveParameters)
    );
    assert_eq!(
        sale_return(100, 10, u32::MAX, 5, 1),
        Err(TokenError::InvalidCurveParameters)
    );
    assert_eq!(
        sale_return(100, 10, MAX_RESERVE_RATIO + 1, 100, 1),
        Err(TokenError::InvalidCurveParameters)
    );
}

#[test]
fn linear_purchase_truncates() {
    assert_eq!(purchase_return(100, 10, MAX_RESERVE_RATIO, 5, 999), Ok(50));
    assert_eq!(purchase_return(7, 3, MAX_RESERVE_RATIO, 2, 999), Ok(4));
    assert_eq!(purchase_return(1, 3, MAX_RESERVE_RATIO, 2, 999), Ok(0));
}

#[test]
fn linear_sale_truncates() {
    assert_eq!(sale_return(100, 50, MAX_RESERVE_RATIO, 10, 999), Ok(5));
    assert_eq!(sale_return(3, 10, MAX_RESERVE_RATIO, 2, 999), Ok(6));
}

#[test]
fn full_sale_releases_the_whole_reserve() {
    assert_eq!(sale_return(100, 77, MINT_RESERVE_RATIO, 100, 5), Ok(77));
    assert_eq!(sale_return(100, 77, MAX_RESERVE_RATIO, 100, 5), Ok(77));
    assert_eq!(sale_return(1, u128::MAX, 1, 1, 5), Ok(u128::MAX));
    assert_eq!(sale_return(100, 0, MINT_RESERVE_RATIO, 100, 5), Ok(0));
}

#[test]
fn fractional_branch_yields_the_power_value() {
    assert_eq!(purchase_return(100, 10, MINT_RESERVE_RATIO, 5, 42), Ok(42));
    assert_eq!(sale_return(100, 10, MINT_RESERVE_RATIO, 5, 43), Ok(43));
    assert_eq!(purchase_return(100, 0, 0, 5, 44), Ok(44));
}

#[test]
fn linear_curve_errors() {
    assert_eq!(
        purchase_return(100, 0, MAX_RESERVE_RATIO, 5, 1),
        Err(TokenError::InvalidCurveParameters)
    );
    assert_eq!(
        purchase_return(u128::MAX, 1, MAX_RESERVE_RATIO, 2, 1),
        Err(TokenError::BalanceOverflow)
    );
    assert_eq!(
        sale_return(0, 10, MAX_RESERVE_RATIO, 5, 1),
        Err(TokenError::InvalidCurveParameters)
    );
    assert_eq!(
        sale_return(7, u128::MAX, MAX_RESERVE_RATIO, 2, 1),
        Err(TokenError::BalanceOverflow)
    );
}

#[test]
fn purchase_does_not_decrease_with_the_deposit() {
    let mut last = 0u128;
    for deposit in 0..200u128 {
        let bought = purchase_return(1000, 37, MAX_RESERVE_RATIO, deposit, 0).unwrap();
        assert!(bought >= last);
        last = bought;
    }
    let mut last = 0u128;
    for deposit in 0..200u128 {
        let power = power_purchase(1000, 37, MINT_RESERVE_RATIO, deposit);
        let bought = purchase_return(1000, 37, MINT_RESERVE_RATIO, deposit, power).unwrap();
        assert!(bought >= last);
        last = bought;
    }
}

#[test]
fn linear_round_trip_never_profits() {
    for deposit in 0..120u128 {
        let bought = purchase_return(1000, 37, MAX_RESERVE_RATIO, deposit, 0).unwrap();
        let released =
            sale_return(1000 + bought, 37 + deposit, MAX_RESERVE_RATIO, bought, 0).unwrap();
        assert!(released <= deposit);
    }
    let bought = purchase_return(100, 10, MAX_RESERVE_RATIO, 5, 0).unwrap();
    assert_eq!(bought, 50);
    assert_eq!(sale_return(150, 15, MAX_RESERVE_RATIO, 50, 0), Ok(5));
}

#[test]
fn power_formula_rounds_up() {
    assert_eq!(power_purchase(100, 1001, MINT_RESERVE_RATIO, 1000), 8);
    assert_eq!(power_sale(108, 1001, MINT_RESERVE_RATIO, 8), 538);
}

#[test]
fn interface_prices_as_the_functions_do() {
    let mut contract = SocialTokens::new("owner.testnet".to_string(), None, "st".to_string(), None, None);
    assert_eq!(
        contract.calculate_purchase_return(100, 10, MAX_RESERVE_RATIO, 5, 9),
        Ok(50)
    );
    assert_eq!(contract.calculate_sale_return(100, 50, MAX_RESERVE_RATIO, 10, 9), Ok(5));
    assert_eq!(contract.calculate_sale_return(100, 50, MINT_RESERVE_RATIO, 100, 9), Ok(50));
    assert_eq!(
        contract.calculate_purchase_return(100, 10, MAX_RESERVE_RATIO + 7, 5, 9),
        Err(TokenError::InvalidCurveParameters)
    );
}
