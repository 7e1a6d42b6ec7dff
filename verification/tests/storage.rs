use social_tokens::error::TokenError;
use social_tokens::settlement::SocialTokensCore;
use social_tokens::registry::SocialTokens;
use social_tokens::storage_manager::{
    AccountStorageBalance, StorageManager, StorageRelease, STORAGE_PRICE_PER_BYTE,
};

fn t(text: &str) -> String {
    text.to_string()
}

fn contract_with_usage(usage: u64) -> SocialTokens {
    let mut contract = SocialTokens::new(t("owner.testnet"), None, t("tokens"), None, None);
    contract
        .create_social_token(&t("alice.testnet"), 1, t("ABC"), true, usage)
        .unwrap();
    contract
}

#[test]
fn minimum_balance_is_usage_times_price() {
    let contract = contract_with_usage(117);
    assert_eq!(STORAGE_PRICE_PER_BYTE, 10_000_000_000_000_000_000);
    assert_eq!(
        contract.storage_minimum_balance(),
        1_170_000_000_000_000_000_000
    );
    assert_eq!(
        contract_with_usage(u64::MAX).storage_minimum_balance(),
        u64::MAX as u128 * 10_000_000_000_000_000_000
    );
    assert_eq!(contract_with_usage(0).storage_minimum_balance(), 0);
}

#[test]
fn storage_deposit_registers() {
    let mut contract = contract_with_usage(2);
    let fee = 2 * STORAGE_PRICE_PER_BYTE;
    assert_eq!(
        contract.storage_deposit(&t("alice.testnet"), fee, t("ABC"), None),
        Ok(AccountStorageBalance { total: fee, available: fee })
    );
    assert_eq!(contract.get_balance(&t("ABC"), &t("alice.testnet")), Ok(0));
    assert_eq!(
        contract.storage_deposit(&t("alice.testnet"), fee, t("ABC"), Some(t("bob.testnet"))),
        Ok(AccountStorageBalance { total: fee, available: fee })
    );
    assert_eq!(contract.get_balance(&t("ABC"), &t("bob.testnet")), Ok(0));
}

#[test]
fn storage_deposit_is_refused() {
    let mut contract = contract_with_usage(2);
    let fee = 2 * STORAGE_PRICE_PER_BYTE;
    assert_eq!(
        contract.storage_deposit(&t("alice.testnet"), fee + 1, t("ABC"), None),
        Err(TokenError::WrongStorageFee)
    );
    assert_eq!(
        contract.storage_deposit(&t("alice.testnet"), 0, t("ABC"), None),
        Err(TokenError::WrongStorageFee)
    );
    assert_eq!(
        contract.get_balance(&t("ABC"), &t("alice.testnet")),
        Err(TokenError::AccountNotRegistered)
    );
    contract
        .storage_deposit(&t("alice.testnet"), fee, t("ABC"), None)
        .unwrap();
    assert_eq!(
        contract.storage_deposit(&t("alice.testnet"), fee, t("ABC"), None),
        Err(TokenError::AlreadyRegistered)
    );
    assert_eq!(
        contract.storage_deposit(&t("bob.testnet"), fee, t("ABC"), Some(t("alice.testnet"))),
        Err(TokenError::AlreadyRegistered)
    );
}

#[test]
fn storage_withdraw_releases() {
    let mut contract = contract_with_usage(2);
    let fee = 2 * STORAGE_PRICE_PER_BYTE;
    contract
        .storage_deposit(&t("alice.testnet"), fee, t("ABC"), None)
        .unwrap();
    assert_eq!(
        contract.storage_withdraw(&t("alice.testnet"), 1, t("ABC"), fee),
        Ok(StorageRelease {
            balance: AccountStorageBalance { total: 0, available: 0 },
            refund: fee + 1,
        })
    );
    assert_eq!(
        contract.get_balance(&t("ABC"), &t("alice.testnet")),
        Err(TokenError::AccountNotRegistered)
    );
}

#[test]
fn storage_withdraw_is_refused() {
    let mut contract = contract_with_usage(2);
    let fee = 2 * STORAGE_PRICE_PER_BYTE;
    contract
        .storage_deposit(&t("alice.testnet"), fee, t("ABC"), None)
        .unwrap();
    assert_eq!(
        contract.storage_withdraw(&t("alice.testnet"), 0, t("ABC"), fee),
        Err(TokenError::Unauthorized)
    );
    assert_eq!(
        contract.storage_withdraw(&t("alice.testnet"), 1, t("ABC"), fee - 1),
        Err(TokenError::WrongStorageFee)
    );
    assert_eq!(
        contract.storage_withdraw(&t("bob.testnet"), 1, t("ABC"), fee),
        Err(TokenError::AccountNotRegistered)
    );
    contract
        .st_mint(&t("alice.testnet"), t("ABC"), 1000, true, 8)
        .unwrap();
    assert_eq!(
        contract.storage_withdraw(&t("alice.testnet"), 1, t("ABC"), fee),
        Err(TokenError::NonZeroBalanceOnDeregister)
    );
    assert_eq!(contract.get_balance(&t("ABC"), &t("alice.testnet")), Ok(8));
}

#[test]
fn storage_balance_of_an_account() {
    let mut contract = contract_with_usage(2);
    let fee = 2 * STORAGE_PRICE_PER_BYTE;
    assert_eq!(
        contract.storage_balance_of(t("ABC"), t("alice.testnet")),
        AccountStorageBalance { total: 0, available: 0 }
    );
    contract
        .storage_deposit(&t("alice.testnet"), fee, t("ABC"), None)
        .unwrap();
    assert_eq!(
        contract.storage_balance_of(t("ABC"), t("alice.testnet")),
        AccountStorageBalance { total: fee, available: fee }
    );
    contract
        .st_mint(&t("alice.testnet"), t("ABC"), 1000, true, 8)
        .unwrap();
    assert_eq!(
        contract.storage_balance_of(t("ABC"), t("alice.testnet")),
        AccountStorageBalance { total: fee, available: 0 }
    );
}
