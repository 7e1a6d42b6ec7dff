use social_tokens::error::TokenError;
use social_tokens::ft::{FungibleToken, FungibleTokenMetadataProvider};

fn acct(text: &str) -> String {
    text.to_string()
}

fn currency_of(supply: u128) -> FungibleToken {
    FungibleToken::new(
        acct("owner.testnet"),
        supply,
        Some(acct("1.0")),
        acct("Token"),
        acct("TKN"),
        None,
        Some([7u8; 32]),
        18,
        125,
    )
}

#[test]
fn owner_holds_the_whole_supply() {
    let token = currency_of(1_000);
    assert_eq!(token.owner_id, "owner.testnet");
    assert_eq!(token.total_supply, 1_000);
    assert_eq!(token.account_storage_usage, 125);
    assert_eq!(token.get_balance(&acct("owner.testnet")), Some(1_000));
    assert_eq!(token.get_balance(&acct("jane.testnet")), None);
    let metadata = token.ft_metadata();
    assert_eq!(metadata.version, Some(acct("1.0")));
    assert_eq!(metadata.name, "Token");
    assert_eq!(metadata.symbol, "TKN");
    assert_eq!(metadata.reference, None);
    assert_eq!(metadata.reference_hash, Some([7u8; 32]));
    assert_eq!(metadata.decimals, 18);
}

#[test]
fn currency_transfer() {
    let mut token = currency_of(1_000);
    assert_eq!(
        token.internal_transfer(&acct("owner.testnet"), &acct("jane.testnet"), 10, None),
        Err(TokenError::AccountNotRegistered)
    );
    assert_eq!(token.register_account(&acct("jane.testnet")), Ok(()));
    assert_eq!(
        token.register_account(&acct("jane.testnet")),
        Err(TokenError::AlreadyRegistered)
    );
    assert_eq!(
        token.internal_transfer(&acct("owner.testnet"), &acct("jane.testnet"), 10, None),
        Ok(())
    );
    assert_eq!(token.get_balance(&acct("owner.testnet")), Some(990));
    assert_eq!(token.get_balance(&acct("jane.testnet")), Some(10));
    assert_eq!(token.total_supply, 1_000);
    assert_eq!(
        token.internal_transfer(&acct("jane.testnet"), &acct("owner.testnet"), 11, None),
        Err(TokenError::InsufficientBalance)
    );
    assert_eq!(
        token.internal_transfer(&acct("jane.testnet"), &acct("jane.testnet"), 1, None),
        Err(TokenError::SameAccountTransfer)
    );
    assert_eq!(token.get_balance(&acct("jane.testnet")), Some(10));
}

#[test]
fn allowances() {
    let mut token = currency_of(1_000);
    let owner = acct("owner.testnet");
    assert_eq!(token.get_allowance(owner.clone(), acct("escrow.testnet")), 0);
    assert_eq!(
        token.set_allowance(&owner, owner.clone(), 5),
        Err(TokenError::SelfAllowance)
    );
    assert_eq!(token.set_allowance(&owner, acct("escrow.testnet"), 5), Ok(()));
    assert_eq!(token.get_allowance(owner.clone(), acct("escrow.testnet")), 5);
    assert_eq!(token.get_allowance(acct("escrow.testnet"), owner.clone()), 0);
    assert_eq!(token.set_allowance(&owner, acct("escrow.testnet"), 8), Ok(()));
    assert_eq!(token.get_allowance(owner.clone(), acct("escrow.testnet")), 8);
    assert_eq!(token.set_allowance(&owner, acct("escrow.testnet"), 0), Ok(()));
    assert_eq!(token.get_allowance(owner.clone(), acct("escrow.testnet")), 0);
    assert_eq!(token.set_allowance(&owner, acct("other.testnet"), 0), Ok(()));
    assert_eq!(token.get_balance(&owner), Some(1_000));
}

#[test]
fn only_the_owner_mints() {
    let mut token = currency_of(1_000);
    assert_eq!(
        token.mint(&acct("jane.testnet"), 5),
        Err(TokenError::Unauthorized)
    );
    assert_eq!(token.mint(&acct("owner.testnet"), 5), Ok(()));
    assert_eq!(token.total_supply, 1_005);
    assert_eq!(token.get_balance(&acct("owner.testnet")), Some(1_005));
    assert_eq!(
        token.mint(&acct("owner.testnet"), u128::MAX - 1_000),
        Err(TokenError::BalanceOverflow)
    );
    assert_eq!(token.total_supply, 1_005);
    assert_eq!(token.get_balance(&acct("owner.testnet")), Some(1_005));
}
