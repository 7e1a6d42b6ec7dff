use social_tokens::curve::MINT_RESERVE_RATIO;
use social_tokens::error::TokenError;
use social_tokens::guard::{
    assert_one_yocto, assert_self, check_allowance, GAS_FOR_FT_TRANSFER_CALL,
    GAS_FOR_RESOLVE_TRANSFER,
};
use social_tokens::registry::SocialTokens;
use social_tokens::settlement::{
    unused_amount, unused_from_answer, HandlerOutcome, Reconciled, Settlement, SocialTokensCore,
};
use social_tokens::storage_manager::StorageManager;

const A: &str = "alice.testnet";
const B: &str = "bob.testnet";
const C: &str = "carol.testnet";
const SELF: &str = "st.momentize.testnet";
const GAS: u64 = 100_000_000_000_000;

fn s(text: &str) -> String {
    text.to_string()
}

fn closed_form(supply: u128, reserve: u128, ratio: u32, deposit: u128) -> u128 {
    let r = ratio as f64 / 1_000_000.0;
    (supply as f64 * ((1.0 + deposit as f64 / reserve as f64).powf(r) - 1.0)).ceil() as u128
}

/// A contract with the token "ABC" created by A, in which A holds exactly
/// `held` units and B and C are registered with nothing.
fn setup(held: u128) -> SocialTokens {
    let mut contract = SocialTokens::new(s("owner.testnet"), None, s("tokens"), None, None);
    contract.create_social_token(&s(A), 1, s("ABC"), true, 0).unwrap();
    for account in [A, B, C, "sink.testnet"] {
        contract
            .storage_deposit(&s(account), 0, s("ABC"), None)
            .unwrap();
    }
    while contract.get_balance(&s("ABC"), &s(A)).unwrap() < held {
        let token = contract.get_social_token(&s("ABC")).unwrap();
        let deposit = 1_000_000u128;
        let power = closed_form(
            token.supply,
            token.collateral_amount + deposit,
            MINT_RESERVE_RATIO,
            deposit,
        );
        contract.st_mint(&s(A), s("ABC"), deposit, true, power).unwrap();
    }
    let excess = contract.get_balance(&s("ABC"), &s(A)).unwrap() - held;
    if excess > 0 {
        contract
            .st_transfer(&s(A), 1, s("ABC"), None, s("sink.testnet"), excess, None)
            .unwrap();
    }
    contract
}

fn balance(contract: &SocialTokens, account: &str) -> u128 {
    contract.get_balance(&s("ABC"), &s(account)).unwrap()
}

fn answer(text: &str) -> HandlerOutcome {
    HandlerOutcome::Successful(text.as_bytes().to_vec())
}

#[test]
fn handler_declines_a_part() {
    let mut contract = setup(80);
    let call = contract
        .st_transfer_call(&s(A), 1, GAS, s("ABC"), s(B), 50, s("noop"), None)
        .unwrap();
    assert_eq!(call.receiver_id, B);
    assert_eq!(call.sender_id, A);
    assert_eq!(call.token_symbol, "ABC");
    assert_eq!(call.amount, 50);
    assert_eq!(call.msg, "noop");
    assert_eq!(balance(&contract, A), 30);
    assert_eq!(balance(&contract, B), 50);
    let supply = contract.get_social_token_supply(&s("ABC")).unwrap();

    let settled = contract
        .st_resolve_transfer(&s(SELF), &s(SELF), s("ABC"), s(A), s(B), 50, &answer("\"20\""))
        .unwrap();
    assert_eq!(
        settled,
        Settlement { outcome: Reconciled::PartialRefund, refund: 20, retained: 30 }
    );
    assert_eq!(balance(&contract, B), 30);
    assert_eq!(balance(&contract, A), 50);
    assert_eq!(contract.get_social_token_supply(&s("ABC")), Ok(supply));
}

#[test]
fn refund_is_clamped_to_what_the_receiver_still_holds() {
    let mut contract = setup(50);
    contract
        .st_transfer_call(&s(A), 1, GAS, s("ABC"), s(B), 50, s("noop"), None)
        .unwrap();
    contract
        .st_transfer(&s(B), 1, s("ABC"), None, s(C), 15, None)
        .unwrap();
    let settled = contract
        .st_resolve_transfer(&s(SELF), &s(SELF), s("ABC"), s(A), s(B), 50, &answer("\"50\""))
        .unwrap();
    assert_eq!(
        settled,
        Settlement { outcome: Reconciled::PartialRefund, refund: 35, retained: 15 }
    );
    assert_eq!(balance(&contract, A), 35);
    assert_eq!(balance(&contract, B), 0);
    assert_eq!(balance(&contract, C), 15);
}

#[test]
fn refund_to_a_sender_who_left_is_burned() {
    let mut contract = setup(50);
    contract
        .st_transfer_call(&s(A), 1, GAS, s("ABC"), s(B), 50, s("noop"), None)
        .unwrap();
    contract.storage_withdraw(&s(A), 1, s("ABC"), 0).unwrap();
    let supply = contract.get_social_token_supply(&s("ABC")).unwrap();
    let sink = balance(&contract, "sink.testnet");

    let settled = contract
        .st_resolve_transfer(&s(SELF), &s(SELF), s("ABC"), s(A), s(B), 50, &answer("\"10\""))
        .unwrap();
    assert_eq!(
        settled,
        Settlement { outcome: Reconciled::Burned, refund: 10, retained: 40 }
    );
    assert_eq!(contract.get_social_token_supply(&s("ABC")), Ok(supply - 10));
    assert_eq!(balance(&contract, B), 40);
    assert_eq!(balance(&contract, C), 0);
    assert_eq!(balance(&contract, "sink.testnet"), sink);
    assert_eq!(
        contract.get_balance(&s("ABC"), &s(A)),
        Err(TokenError::AccountNotRegistered)
    );
}

#[test]
fn handler_keeps_everything() {
    let mut contract = setup(50);
    contract
        .st_transfer_call(&s(A), 1, GAS, s("ABC"), s(B), 50, s("noop"), None)
        .unwrap();
    let settled = contract
        .st_resolve_transfer(&s(SELF), &s(SELF), s("ABC"), s(A), s(B), 50, &answer("\"0\""))
        .unwrap();
    assert_eq!(
        settled,
        Settlement { outcome: Reconciled::Full, refund: 0, retained: 50 }
    );
    assert_eq!(balance(&contract, A), 0);
    assert_eq!(balance(&contract, B), 50);
}

#[test]
fn failure_declines_everything() {
    for outcome in [
        HandlerOutcome::Failed,
        HandlerOutcome::NotReady,
        answer("not json"),
        answer("20"),
        answer("\"-1\""),
        answer("\"340282366920938463463374607431768211456\""),
        answer(""),
    ] {
        let mut contract = setup(70);
        contract
            .st_transfer_call(&s(A), 1, GAS, s("ABC"), s(B), 50, s("noop"), None)
            .unwrap();
        let settled = contract
            .st_resolve_transfer(&s(SELF), &s(SELF), s("ABC"), s(A), s(B), 50, &outcome)
            .unwrap();
        assert_eq!(
            settled,
            Settlement { outcome: Reconciled::PartialRefund, refund: 50, retained: 0 }
        );
        assert_eq!(balance(&contract, A), 70);
        assert_eq!(balance(&contract, B), 0);
    }
}

#[test]
fn answer_above_the_amount_counts_as_the_amount() {
    let mut contract = setup(50);
    contract
        .st_transfer_call(&s(A), 1, GAS, s("ABC"), s(B), 20, s("noop"), None)
        .unwrap();
    let settled = contract
        .st_resolve_transfer(&s(SELF), &s(SELF), s("ABC"), s(A), s(B), 20, &answer("\"21\""))
        .unwrap();
    assert_eq!(
        settled,
        Settlement { outcome: Reconciled::PartialRefund, refund: 20, retained: 0 }
    );
    assert_eq!(balance(&contract, A), 50);
}

#[test]
fn receiver_that_spent_all_refunds_nothing() {
    let mut contract = setup(50);
    contract
        .st_transfer_call(&s(A), 1, GAS, s("ABC"), s(B), 50, s("noop"), None)
        .unwrap();
    contract
        .st_transfer(&s(B), 1, s("ABC"), None, s(C), 50, None)
        .unwrap();
    let supply = contract.get_social_token_supply(&s("ABC")).unwrap();
    let settled = contract
        .st_resolve_transfer(&s(SELF), &s(SELF), s("ABC"), s(A), s(B), 50, &HandlerOutcome::Failed)
        .unwrap();
    assert_eq!(
        settled,
        Settlement { outcome: Reconciled::Full, refund: 0, retained: 50 }
    );
    assert_eq!(balance(&contract, A), 0);
    assert_eq!(balance(&contract, B), 0);
    assert_eq!(balance(&contract, C), 50);
    assert_eq!(contract.get_social_token_supply(&s("ABC")), Ok(supply));
}

#[test]
fn receiver_that_left_refunds_nothing() {
    let mut contract = setup(50);
    contract
        .st_transfer_call(&s(A), 1, GAS, s("ABC"), s(B), 50, s("noop"), None)
        .unwrap();
    contract
        .st_transfer(&s(B), 1, s("ABC"), None, s(C), 50, None)
        .unwrap();
    contract.storage_withdraw(&s(B), 1, s("ABC"), 0).unwrap();
    let settled = contract.settle(&s("ABC"), &s(A), &s(B), 50, 50);
    assert_eq!(
        settled,
        Settlement { outcome: Reconciled::Full, refund: 0, retained: 50 }
    );
}

#[test]
fn only_the_contract_reconciles() {
    let mut contract = setup(50);
    contract
        .st_transfer_call(&s(A), 1, GAS, s("ABC"), s(B), 50, s("noop"), None)
        .unwrap();
    assert_eq!(
        contract.st_resolve_transfer(&s(B), &s(SELF), s("ABC"), s(A), s(B), 50, &answer("\"0\"")),
        Err(TokenError::Unauthorized)
    );
    assert_eq!(balance(&contract, B), 50);
}

#[test]
fn transfer_needs_the_one_unit_payment() {
    let mut contract = setup(50);
    for attached in [0u128, 2, u128::MAX] {
        assert_eq!(
            contract.st_transfer(&s(A), attached, s("ABC"), None, s(B), 5, None),
            Err(TokenError::Unauthorized)
        );
        assert!(matches!(
            contract.st_transfer_call(&s(A), attached, GAS, s("ABC"), s(B), 5, s("m"), None),
            Err(TokenError::Unauthorized)
        ));
    }
    assert_eq!(balance(&contract, A), 50);
    assert_eq!(balance(&contract, B), 0);
}

#[test]
fn transfer_through_the_contract() {
    let mut contract = setup(50);
    assert_eq!(
        contract.st_transfer(&s(A), 1, s("ABC"), None, s(B), 20, Some(s("gift"))),
        Ok(())
    );
    assert_eq!(balance(&contract, A), 30);
    assert_eq!(balance(&contract, B), 20);
    assert_eq!(
        contract.st_transfer(&s(C), 1, s("ABC"), Some(s(B)), s(C), 5, None),
        Ok(())
    );
    assert_eq!(balance(&contract, B), 15);
    assert_eq!(balance(&contract, C), 5);
    assert_eq!(
        contract.st_transfer(&s(A), 1, s("ABC"), None, s(A), 1, None),
        Err(TokenError::SameAccountTransfer)
    );
    assert_eq!(
        contract.st_transfer(&s(A), 1, s("ABC"), Some(s(B)), s(B), 1, None),
        Err(TokenError::SameAccountTransfer)
    );
    assert_eq!(
        contract.st_transfer(&s(A), 1, s("ABC"), None, s(B), 31, None),
        Err(TokenError::InsufficientBalance)
    );
    assert_eq!(
        contract.st_transfer(&s(A), 1, s("ABC"), None, s("nobody.testnet"), 1, None),
        Err(TokenError::AccountNotRegistered)
    );
    assert_eq!(
        contract.internal_transfer(&s("XYZ"), &s(A), &s(B), 1, None),
        Err(TokenError::AccountNotRegistered)
    );
    assert_eq!(balance(&contract, A), 30);
}

#[test]
fn allowance_is_apportioned() {
    let mut contract = setup(50);
    assert!(matches!(
        contract.st_transfer_call(
            &s(A),
            1,
            GAS_FOR_FT_TRANSFER_CALL - 1,
            s("ABC"),
            s(B),
            5,
            s("m"),
            None
        ),
        Err(TokenError::InsufficientAllowance)
    ));
    assert_eq!(balance(&contract, A), 50);
    let call = contract
        .st_transfer_call(&s(A), 1, GAS, s("ABC"), s(B), 5, s("m"), None)
        .unwrap();
    assert_eq!(call.gas_for_handler, GAS - 30_000_000_000_000);
    assert_eq!(call.gas_for_resolve, 5_000_000_000_000);
    assert_eq!(GAS_FOR_RESOLVE_TRANSFER, 5_000_000_000_000);
    assert_eq!(check_allowance(GAS_FOR_FT_TRANSFER_CALL), Ok(0));
    assert_eq!(check_allowance(0), Err(TokenError::InsufficientAllowance));
}

#[test]
fn failed_transfer_call_moves_nothing() {
    let mut contract = setup(50);
    assert!(matches!(
        contract.st_transfer_call(&s(A), 1, GAS, s("ABC"), s(B), 51, s("m"), None),
        Err(TokenError::InsufficientBalance)
    ));
    assert!(matches!(
        contract.st_transfer_call(&s(A), 1, GAS, s("ABC"), s(A), 5, s("m"), None),
        Err(TokenError::SameAccountTransfer)
    ));
    assert_eq!(balance(&contract, A), 50);
    assert_eq!(balance(&contract, B), 0);
}

#[test]
fn guards_accept_and_refuse() {
    assert_eq!(assert_one_yocto(1), Ok(()));
    assert_eq!(assert_one_yocto(0), Err(TokenError::Unauthorized));
    assert_eq!(assert_self(&s(SELF), &s(SELF)), Ok(()));
    assert_eq!(assert_self(&s(A), &s(SELF)), Err(TokenError::Unauthorized));
}

#[test]
fn declined_amount_from_the_answer() {
    assert_eq!(unused_from_answer(50, Some(20)), 20);
    assert_eq!(unused_from_answer(50, Some(50)), 50);
    assert_eq!(unused_from_answer(50, Some(51)), 50);
    assert_eq!(unused_from_answer(50, Some(0)), 0);
    assert_eq!(unused_from_answer(50, None), 50);
    assert_eq!(unused_amount(50, &answer("\"7\"")), 7);
    assert_eq!(unused_amount(50, &answer(" \"7\" ")), 7);
    assert_eq!(unused_amount(50, &answer("\"50000\"")), 50);
    assert_eq!(unused_amount(50, &answer("7")), 50);
    assert_eq!(unused_amount(50, &HandlerOutcome::Failed), 50);
    assert_eq!(unused_amount(50, &HandlerOutcome::NotReady), 50);
}

#[test]
fn settlement_keeps_supply_and_holdings_together() {
    let mut contract = setup(60);
    let everyone = [A, B, C, "sink.testnet"];
    let held = |c: &SocialTokens| -> u128 {
        everyone
            .iter()
            .map(|a| c.get_balance(&s("ABC"), &s(a)).unwrap_or(0))
            .sum()
    };
    let gap = contract.get_social_token_supply(&s("ABC")).unwrap() - held(&contract);
    contract
        .st_transfer_call(&s(A), 1, GAS, s("ABC"), s(B), 50, s("noop"), None)
        .unwrap();
    assert_eq!(contract.get_social_token_supply(&s("ABC")).unwrap() - held(&contract), gap);
    contract.settle(&s("ABC"), &s(A), &s(B), 50, 20);
    assert_eq!(contract.get_social_token_supply(&s("ABC")).unwrap() - held(&contract), gap);
    contract
        .st_transfer(&s(A), 1, s("ABC"), None, s(C), 30, None)
        .unwrap();
    contract.storage_withdraw(&s(A), 1, s("ABC"), 0).unwrap();
    let settled = contract.settle(&s("ABC"), &s(A), &s(B), 30, 30);
    assert_eq!(settled.outcome, Reconciled::Burned);
    assert_eq!(settled.refund, 30);
    assert_eq!(contract.get_social_token_supply(&s("ABC")).unwrap() - held(&contract), gap);
}
