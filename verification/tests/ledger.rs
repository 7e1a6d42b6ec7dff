use social_tokens::error::TokenError;
use social_tokens::ledger::Ledger;

fn name(text: &str) -> String {
    text.to_string()
}

fn ledger_of(entries: &[(&str, &str, u128)]) -> Ledger {
    let mut ledger = Ledger::new();
    for (symbol, account, balance) in entries {
        ledger.register(&name(symbol), &name(account)).unwrap();
        ledger.deposit(&name(symbol), &name(account), *balance).unwrap();
    }
    ledger
}

fn total(ledger: &Ledger, symbol: &str, accounts: &[&str]) -> u128 {
    accounts
        .iter()
        .map(|a| ledger.st_get_balance(&name(symbol), &name(a)).unwrap_or(0))
        .sum()
}

#[test]
fn unregistered_is_not_zero() {
    let mut ledger = Ledger::new();
    assert_eq!(ledger.st_get_balance(&name("ABC"), &name("alice")), None);
    assert!(!ledger.is_registered(&name("ABC"), &name("alice")));
    ledger.register(&name("ABC"), &name("alice")).unwrap();
    assert_eq!(ledger.st_get_balance(&name("ABC"), &name("alice")), Some(0));
    assert!(ledger.is_registered(&name("ABC"), &name("alice")));
    assert_eq!(ledger.st_get_balance(&name("XYZ"), &name("alice")), None);
    assert_eq!(ledger.st_get_balance(&name("ABC"), &name("bob")), None);
}

#[test]
fn registration_happens_once() {
    let mut ledger = Ledger::new();
    assert_eq!(ledger.register(&name("ABC"), &name("alice")), Ok(()));
    assert_eq!(
        ledger.register(&name("ABC"), &name("alice")),
        Err(TokenError::AlreadyRegistered)
    );
    assert_eq!(ledger.register(&name("XYZ"), &name("alice")), Ok(()));
}

#[test]
fn keys_are_pairs_not_concatenations() {
    let mut ledger = ledger_of(&[("AB", "c", 5)]);
    assert_eq!(ledger.st_get_balance(&name("A"), &name("Bc")), None);
    assert_eq!(
        ledger.deposit(&name("A"), &name("Bc"), 1),
        Err(TokenError::AccountNotRegistered)
    );
    assert_eq!(ledger.st_get_balance(&name("AB"), &name("c")), Some(5));
}

#[test]
fn deposit_needs_registration() {
    let mut ledger = Ledger::new();
    assert_eq!(
        ledger.deposit(&name("ABC"), &name("alice"), 10),
        Err(TokenError::AccountNotRegistered)
    );
    assert_eq!(ledger.st_get_balance(&name("ABC"), &name("alice")), None);
}

#[test]
fn deposit_adds_and_checks_overflow() {
    let mut ledger = ledger_of(&[("ABC", "alice", 10)]);
    assert_eq!(ledger.deposit(&name("ABC"), &name("alice"), 5), Ok(()));
    assert_eq!(ledger.st_get_balance(&name("ABC"), &name("alice")), Some(15));
    assert_eq!(
        ledger.deposit(&name("ABC"), &name("alice"), u128::MAX - 14),
        Err(TokenError::BalanceOverflow)
    );
    assert_eq!(ledger.st_get_balance(&name("ABC"), &name("alice")), Some(15));
    assert_eq!(ledger.deposit(&name("ABC"), &name("alice"), u128::MAX - 15), Ok(()));
    assert_eq!(
        ledger.st_get_balance(&name("ABC"), &name("alice")),
        Some(u128::MAX)
    );
}

#[test]
fn withdraw_subtracts_and_checks_underflow() {
    let mut ledger = ledger_of(&[("ABC", "alice", 10)]);
    assert_eq!(
        ledger.withdraw(&name("ABC"), &name("bob"), 1),
        Err(TokenError::AccountNotRegistered)
    );
    assert_eq!(
        ledger.withdraw(&name("ABC"), &name("alice"), 11),
        Err(TokenError::InsufficientBalance)
    );
    assert_eq!(ledger.st_get_balance(&name("ABC"), &name("alice")), Some(10));
    assert_eq!(ledger.withdraw(&name("ABC"), &name("alice"), 10), Ok(()));
    assert_eq!(ledger.st_get_balance(&name("ABC"), &name("alice")), Some(0));
}

#[test]
fn transfer_moves_the_amount() {
    let mut ledger = ledger_of(&[("ABC", "alice", 100), ("ABC", "bob", 7), ("XYZ", "alice", 3)]);
    assert_eq!(
        ledger.transfer(&name("ABC"), &name("alice"), &name("bob"), 40),
        Ok(())
    );
    assert_eq!(ledger.st_get_balance(&name("ABC"), &name("alice")), Some(60));
    assert_eq!(ledger.st_get_balance(&name("ABC"), &name("bob")), Some(47));
    assert_eq!(ledger.st_get_balance(&name("XYZ"), &name("alice")), Some(3));
}

#[test]
fn transfer_to_self_always_fails() {
    let mut ledger = ledger_of(&[("ABC", "alice", 100)]);
    for amount in [0u128, 1, 100, 101, u128::MAX] {
        assert_eq!(
            ledger.transfer(&name("ABC"), &name("alice"), &name("alice"), amount),
            Err(TokenError::SameAccountTransfer)
        );
    }
    assert_eq!(
        ledger.transfer(&name("ABC"), &name("nobody"), &name("nobody"), 1),
        Err(TokenError::SameAccountTransfer)
    );
    assert_eq!(ledger.st_get_balance(&name("ABC"), &name("alice")), Some(100));
}

#[test]
fn failed_transfer_changes_nothing() {
    let mut ledger = ledger_of(&[("ABC", "alice", 100), ("ABC", "rich", u128::MAX - 5)]);
    assert_eq!(
        ledger.transfer(&name("ABC"), &name("alice"), &name("bob"), 40),
        Err(TokenError::AccountNotRegistered)
    );
    assert_eq!(
        ledger.transfer(&name("ABC"), &name("bob"), &name("alice"), 40),
        Err(TokenError::AccountNotRegistered)
    );
    assert_eq!(
        ledger.transfer(&name("ABC"), &name("alice"), &name("rich"), 101),
        Err(TokenError::InsufficientBalance)
    );
    assert_eq!(
        ledger.transfer(&name("ABC"), &name("alice"), &name("rich"), 6),
        Err(TokenError::BalanceOverflow)
    );
    assert_eq!(ledger.st_get_balance(&name("ABC"), &name("alice")), Some(100));
    assert_eq!(
        ledger.st_get_balance(&name("ABC"), &name("rich")),
        Some(u128::MAX - 5)
    );
    assert_eq!(ledger.st_get_balance(&name("ABC"), &name("bob")), None);
}

#[test]
fn transfers_conserve_the_sum() {
    let accounts = ["alice", "bob", "carol"];
    let mut ledger = ledger_of(&[("ABC", "alice", 100), ("ABC", "bob", 20), ("ABC", "carol", 0)]);
    assert_eq!(total(&ledger, "ABC", &accounts), 120);
    ledger
        .transfer(&name("ABC"), &name("alice"), &name("carol"), 33)
        .unwrap();
    assert_eq!(total(&ledger, "ABC", &accounts), 120);
    ledger
        .transfer(&name("ABC"), &name("bob"), &name("alice"), 20)
        .unwrap();
    assert_eq!(total(&ledger, "ABC", &accounts), 120);
    ledger.deposit(&name("ABC"), &name("bob"), 5).unwrap();
    assert_eq!(total(&ledger, "ABC", &accounts), 125);
    ledger.withdraw(&name("ABC"), &name("carol"), 3).unwrap();
    assert_eq!(total(&ledger, "ABC", &accounts), 122);
}

#[test]
fn deregistration_needs_a_zero_balance() {
    let mut ledger = ledger_of(&[("ABC", "alice", 1), ("ABC", "bob", 0), ("ABC", "carol", 4)]);
    assert_eq!(
        ledger.deregister(&name("ABC"), &name("dave")),
        Err(TokenError::AccountNotRegistered)
    );
    assert_eq!(
        ledger.deregister(&name("ABC"), &name("alice")),
        Err(TokenError::NonZeroBalanceOnDeregister)
    );
    assert_eq!(ledger.st_get_balance(&name("ABC"), &name("alice")), Some(1));
    assert_eq!(ledger.deregister(&name("ABC"), &name("bob")), Ok(()));
    assert_eq!(ledger.st_get_balance(&name("ABC"), &name("bob")), None);
    assert_eq!(ledger.st_get_balance(&name("ABC"), &name("alice")), Some(1));
    assert_eq!(ledger.st_get_balance(&name("ABC"), &name("carol")), Some(4));
    assert_eq!(
        ledger.deregister(&name("ABC"), &name("bob")),
        Err(TokenError::AccountNotRegistered)
    );
}

#[test]
fn set_balance_registers_where_needed() {
    let mut ledger = Ledger::new();
    ledger.st_set_balance(&name("ABC"), &name("alice"), 9);
    assert_eq!(ledger.st_get_balance(&name("ABC"), &name("alice")), Some(9));
    ledger.st_set_balance(&name("ABC"), &name("alice"), 2);
    assert_eq!(ledger.st_get_balance(&name("ABC"), &name("alice")), Some(2));
}
