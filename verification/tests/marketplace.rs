use social_tokens::marketplace::{MarketError, Marketplace, STORAGE_PER_SALE};
use social_tokens::nft::TokenSet;

fn who(text: &str) -> String {
    text.to_string()
}

fn market() -> Marketplace {
    Marketplace::new(
        who("owner.testnet"),
        Some(vec![who("ft.testnet"), who("near"), who("ft.testnet"), who("st.testnet")]),
    )
}

#[test]
fn native_currency_is_supported_from_the_start() {
    let plain = Marketplace::new(who("owner.testnet"), None);
    assert_eq!(plain.owner_id, "owner.testnet");
    assert_eq!(plain.supported_ft_token_ids(), ["near"]);
    assert_eq!(market().supported_ft_token_ids(), ["near", "ft.testnet", "st.testnet"]);
}

#[test]
fn owner_adds_supported_tokens() {
    let mut market = market();
    assert_eq!(
        market.add_ft_or_st_token_ids(&who("jane.testnet"), who("new.testnet"), None),
        Err(MarketError::Unauthorized)
    );
    assert_eq!(
        market.add_ft_or_st_token_ids(&who("owner.testnet"), who("new.testnet"), None),
        Ok(true)
    );
    assert_eq!(
        market.add_ft_or_st_token_ids(&who("owner.testnet"), who("new.testnet"), None),
        Ok(false)
    );
    assert_eq!(
        market.add_ft_or_st_token_ids(&who("owner.testnet"), who("st.testnet"), Some(who("abc"))),
        Err(MarketError::InvalidAccountId)
    );
    assert_eq!(
        market.supported_ft_token_ids(),
        ["near", "ft.testnet", "st.testnet", "new.testnet"]
    );
}

#[test]
fn storage_deposits_add_up() {
    let mut market = market();
    assert_eq!(STORAGE_PER_SALE, 10_000_000_000_000_000_000_000);
    assert_eq!(market.storage_amount(), STORAGE_PER_SALE);
    assert_eq!(market.storage_paid(who("jane.testnet")), 0);
    assert_eq!(
        market.storage_deposit(&who("jane.testnet"), STORAGE_PER_SALE - 1, None),
        Err(MarketError::DepositTooSmall)
    );
    assert_eq!(
        market.storage_deposit(&who("jane.testnet"), STORAGE_PER_SALE, None),
        Ok(())
    );
    assert_eq!(
        market.storage_deposit(&who("joe.testnet"), STORAGE_PER_SALE + 5, Some(who("jane.testnet"))),
        Ok(())
    );
    assert_eq!(market.storage_paid(who("jane.testnet")), 2 * STORAGE_PER_SALE + 5);
    assert_eq!(market.storage_paid(who("joe.testnet")), 0);
    assert_eq!(
        market.storage_deposit(&who("jane.testnet"), u128::MAX - STORAGE_PER_SALE, None),
        Err(MarketError::Overflow)
    );
    assert_eq!(market.storage_paid(who("jane.testnet")), 2 * STORAGE_PER_SALE + 5);
}

#[test]
fn storage_withdrawal_keeps_what_the_sales_take() {
    let mut market = market();
    market
        .storage_deposit(&who("jane.testnet"), 3 * STORAGE_PER_SALE + 7, None)
        .unwrap();
    market.by_owner_id.push(TokenSet {
        key: who("jane.testnet"),
        token_ids: vec![who("nft.testnet||1"), who("nft.testnet||2")],
    });
    assert_eq!(
        market.storage_withdraw(&who("jane.testnet"), 0),
        Err(MarketError::Unauthorized)
    );
    assert_eq!(market.storage_paid(who("jane.testnet")), 3 * STORAGE_PER_SALE + 7);
    assert_eq!(
        market.storage_withdraw(&who("jane.testnet"), 1),
        Ok(STORAGE_PER_SALE + 7)
    );
    assert_eq!(market.storage_paid(who("jane.testnet")), 0);
    assert_eq!(
        market.storage_withdraw(&who("jane.testnet"), 1),
        Err(MarketError::SalesExceedDeposit)
    );
    assert_eq!(market.storage_withdraw(&who("joe.testnet"), 1), Ok(0));
}
