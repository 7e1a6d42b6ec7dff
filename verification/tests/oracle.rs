use social_tokens::account::is_valid_account_id;
use social_tokens::oracle::{Oracle, OracleError, EXPIRY_TIME};
use social_tokens::ordered::less;

const ORACLE: &str = "oracle.testnet";

fn n(text: &str) -> String {
    text.to_string()
}

fn oracle() -> Oracle {
    Oracle::new(n(ORACLE)).unwrap()
}

fn ask(oracle: &mut Oracle, from: &str, method: &str, nonce: Option<u128>) -> Result<(), OracleError> {
    oracle.request(
        n(from),
        &n(ORACLE),
        1_000,
        n("client.testnet"),
        n(method),
        nonce,
        n("payload"),
    )
}

#[test]
fn account_identifiers_are_checked() {
    for valid in ["aa", "a-a", "a-aa", "100", "0o", "com", "near", "bowen", "b-o_w_e-n", "b.owen",
        "bro.wen", "a.ha", "a.b-a.ra", "system", "over.9000", "google.com",
        "illia.cheapaccounts.near", "0o0ooo00oo00o", "alex-skidanov", "10-4.8-2", "b-o_w_e-n",
        "no_lols", "0123456789012345678901234567890123456789012345678901234567890123"] {
        assert!(is_valid_account_id(&n(valid)), "{}", valid);
    }
    for invalid in ["a", "A", "Abc", "-near", "near-", "-near-", "near.", ".near", "near@", "@near",
        "a..near", "nEar", "_bowen", "hello world", "abcdefghijklmnopqrstuvwxyz.abcdefghijklmnopqrstuvwxyz.abcdefghijklmnopqrstuvwxyz",
        "01234567890123456789012345678901234567890123456789012345678901234", "some-complex-address@gmail.com",
        "sub.buy_d1gitz@atata@b0-rg.c_0_m", "ft.testnet||abc", "", "a-_b", "\u{e9}t\u{e9}"] {
        assert!(!is_valid_account_id(&n(invalid)), "{}", invalid);
    }
}

#[test]
fn oracle_needs_a_valid_owner() {
    assert!(matches!(Oracle::new(n("Not Valid")), Err(OracleError::InvalidAccountId)));
    let oracle = oracle();
    assert_eq!(oracle.owner, ORACLE);
    assert!(oracle.requests.is_empty());
    assert!(oracle.nonces.is_empty());
    assert!(oracle.authorized_nodes.is_empty());
}

#[test]
fn texts_are_ordered_by_their_bytes() {
    assert!(less(&n("a"), &n("b")));
    assert!(!less(&n("b"), &n("a")));
    assert!(!less(&n("a"), &n("a")));
    assert!(less(&n("a"), &n("aa")));
    assert!(!less(&n("aa"), &n("a")));
    assert!(less(&n(""), &n("a")));
    assert!(!less(&n(""), &n("")));
    assert!(less(&n("Z"), &n("a")));
    assert!(less(&n("ab"), &n("b")));
    assert!(less(&n("z"), &n("\u{e9}")));
    for (a, b) in [("jane", "joe"), ("x.testnet", "x"), ("10", "9")] {
        assert_eq!(less(&n(a), &n(b)), a < b);
        assert_eq!(less(&n(b), &n(a)), b < a);
    }
}

#[test]
fn nodes_are_authorised_by_the_oracle_itself() {
    let mut oracle = oracle();
    let me = n(ORACLE);
    assert_eq!(
        oracle.add_authorization(&n("jane.testnet"), &me, n("node.testnet")),
        Err(OracleError::NotOwner)
    );
    assert_eq!(
        oracle.add_authorization(&me, &me, n("Node")),
        Err(OracleError::InvalidAccountId)
    );
    assert!(!oracle.is_authorized(&n("node.testnet")));
    for node in ["n1.testnet", "n2.testnet", "n1.testnet", "n3.testnet"] {
        assert_eq!(oracle.add_authorization(&me, &me, n(node)), Ok(()));
    }
    assert_eq!(oracle.authorized_nodes.len(), 3);
    assert!(oracle.is_authorized(&n("n2.testnet")));
    assert_eq!(
        oracle.remove_authorization(&n("jane.testnet"), &me, n("n1.testnet")),
        Err(OracleError::NotOwner)
    );
    assert_eq!(oracle.remove_authorization(&me, &me, n("n1.testnet")), Ok(()));
    assert_eq!(oracle.remove_authorization(&me, &me, n("n9.testnet")), Ok(()));
    assert!(!oracle.is_authorized(&n("n1.testnet")));
    assert!(oracle.is_authorized(&n("n2.testnet")));
    assert!(oracle.is_authorized(&n("n3.testnet")));
    assert_eq!(oracle.authorized_nodes.len(), 2);
}

#[test]
fn guards_of_the_oracle() {
    let oracle = oracle();
    let me = n(ORACLE);
    assert_eq!(Oracle::_only_owner(&me, &me), Ok(()));
    assert_eq!(Oracle::_only_owner(&n("x.testnet"), &me), Err(OracleError::NotOwner));
    assert_eq!(Oracle::_only_owner_predecessor(&me, &me), Ok(()));
    assert_eq!(
        Oracle::_only_owner_predecessor(&n("x.testnet"), &me),
        Err(OracleError::NotOwnerPredecessor)
    );
    assert_eq!(oracle._only_authorized_node(&me, &me), Ok(()));
    assert_eq!(
        oracle._only_authorized_node(&n("x.testnet"), &me),
        Err(OracleError::NotAuthorized)
    );
    assert_eq!(Oracle::_check_callback_address(&n("x.testnet"), &me), Ok(()));
    assert_eq!(
        Oracle::_check_callback_address(&me, &me),
        Err(OracleError::CallbackIsOracle)
    );
}

#[test]
fn requests_are_kept_in_order() {
    let mut oracle = oracle();
    assert_eq!(ask(&mut oracle, "joe.testnet", "m", Some(5)), Ok(()));
    assert_eq!(ask(&mut oracle, "jane.testnet", "m", Some(2)), Ok(()));
    assert_eq!(ask(&mut oracle, "jane.testnet", "m", Some(9)), Ok(()));
    assert_eq!(ask(&mut oracle, "adam.testnet", "m", None), Ok(()));
    let accounts: Vec<&str> = oracle.requests.iter().map(|r| r.account.as_str()).collect();
    assert_eq!(accounts, ["adam.testnet", "jane.testnet", "joe.testnet"]);
    let jane = oracle.get_requests(n("jane.testnet"), 10).unwrap();
    assert_eq!(jane.len(), 2);
    assert_eq!(jane[0].nonce, Some(2));
    assert_eq!(jane[1].nonce, Some(9));
    assert_eq!(jane[0].request.callback_address, "client.testnet");
    assert_eq!(jane[0].request.callback_method, "m");
    assert_eq!(jane[0].request.data, "payload");
    assert_eq!(jane[0].request.expiration, 1_000 + EXPIRY_TIME);
    assert_eq!(jane[0].request.expiration, 300_000_001_000);
    assert_eq!(oracle.get_nonce(&n("jane.testnet")), Some(Some(9)));
    assert_eq!(oracle.get_nonce(&n("adam.testnet")), Some(None));
    assert_eq!(oracle.get_nonce(&n("nobody.testnet")), None);
    let nonces = oracle.get_nonces();
    assert_eq!(nonces.len(), 3);
    assert_eq!(nonces[0].account, "joe.testnet");
    assert_eq!(nonces[0].nonce, Some(5));
}

#[test]
fn requests_are_refused() {
    let mut oracle = oracle();
    assert_eq!(
        oracle.request(n("jane.testnet"), &n(ORACLE), 0, n(ORACLE), n("m"), Some(1), n("d")),
        Err(OracleError::CallbackIsOracle)
    );
    assert_eq!(ask(&mut oracle, "jane.testnet", "m", Some(5)), Ok(()));
    assert_eq!(ask(&mut oracle, "jane.testnet", "m", Some(5)), Err(OracleError::NonceExists));
    assert_eq!(ask(&mut oracle, "jane.testnet", "m", Some(4)), Err(OracleError::NonceUsed));
    assert_eq!(ask(&mut oracle, "jane.testnet", "m", None), Ok(()));
    assert_eq!(
        ask(&mut oracle, "jane.testnet", "m", Some(u128::MAX)),
        Err(OracleError::NonceUsed)
    );
    assert_eq!(ask(&mut oracle, "jane.testnet", "m", None), Ok(()));
    assert_eq!(
        oracle.request(
            n("joe.testnet"),
            &n(ORACLE),
            u64::MAX,
            n("client.testnet"),
            n("m"),
            Some(1),
            n("d")
        ),
        Err(OracleError::Overflow)
    );
    assert_eq!(oracle.requests.len(), 1);
    assert_eq!(oracle.get_requests(n("jane.testnet"), 10).unwrap().len(), 2);
    assert!(matches!(
        oracle.get_requests(n("joe.testnet"), 10),
        Err(OracleError::AccountNotFound)
    ));
}

#[test]
fn stored_request_replaces_one_under_the_same_nonce() {
    let mut oracle = oracle();
    for (nonce, data) in [(Some(3), "a"), (Some(1), "b"), (Some(3), "c"), (None, "d")] {
        oracle
            .store_request(7, n("jane.testnet"), n("client.testnet"), n("m"), nonce, n(data))
            .unwrap();
    }
    let all = oracle.get_all_requests(10, 10);
    assert_eq!(all.len(), 1);
    assert_eq!(all[0].account, "jane.testnet");
    let seen: Vec<(Option<u128>, &str)> =
        all[0].requests.iter().map(|r| (r.nonce, r.request.data.as_str())).collect();
    assert_eq!(seen, [(None, "d"), (Some(1), "b"), (Some(3), "c")]);
    assert_eq!(oracle.get_nonce(&n("jane.testnet")), Some(None));
    assert_eq!(
        oracle.store_request(u64::MAX - EXPIRY_TIME + 1, n("x"), n("y"), n("m"), None, n("d")),
        Err(OracleError::Overflow)
    );
}

#[test]
fn listing_is_limited() {
    let mut oracle = oracle();
    for nonce in 1..=5u128 {
        ask(&mut oracle, "jane.testnet", "m", Some(nonce)).unwrap();
    }
    assert_eq!(oracle.get_requests(n("jane.testnet"), 1).unwrap().len(), 1);
    assert_eq!(oracle.get_requests(n("jane.testnet"), 0).unwrap().len(), 0);
    assert_eq!(oracle.get_requests(n("jane.testnet"), 3).unwrap().len(), 2);
    assert_eq!(oracle.get_requests(n("jane.testnet"), 10).unwrap().len(), 2);
    ask(&mut oracle, "adam.testnet", "m", Some(1)).unwrap();
    assert_eq!(oracle.get_requests(n("jane.testnet"), 10).unwrap().len(), 3);
    let all = oracle.get_all_requests(10, 2);
    assert_eq!(all.len(), 2);
    assert_eq!(all[0].account, "adam.testnet");
    assert_eq!(all[0].requests.len(), 1);
    assert_eq!(all[1].account, "jane.testnet");
    assert_eq!(all[1].requests.len(), 2);
    assert_eq!(all[1].requests[1].nonce, Some(2));
    let first = oracle.get_all_requests(1, 10);
    assert_eq!(first.len(), 1);
    assert_eq!(first[0].account, "adam.testnet");
    assert!(oracle.get_all_requests(0, 10).is_empty());
}

#[test]
fn listing_by_method() {
    let mut oracle = oracle();
    let campaign = "campaign_verification_callback";
    let renewal = "renew_subscription_pass";
    for (nonce, method) in
        [(1, campaign), (2, renewal), (3, campaign), (4, "other"), (5, campaign), (6, renewal)]
    {
        ask(&mut oracle, "jane.testnet", method, Some(nonce)).unwrap();
    }
    ask(&mut oracle, "adam.testnet", renewal, Some(1)).unwrap();
    let campaigns = oracle.get_campaign_requests(10, 2);
    assert_eq!(campaigns.len(), 2);
    assert_eq!(campaigns[0].account, "adam.testnet");
    assert!(campaigns[0].requests.is_empty());
    let nonces: Vec<Option<u128>> = campaigns[1].requests.iter().map(|r| r.nonce).collect();
    assert_eq!(nonces, [Some(1), Some(3)]);
    let all_campaigns = oracle.get_campaign_requests(10, 10);
    assert_eq!(all_campaigns[1].requests.len(), 3);
    let renewals = oracle.get_subscription_renewal_requests(1, 10);
    assert_eq!(renewals.len(), 1);
    assert_eq!(renewals[0].requests.len(), 1);
    let renewals = oracle.get_subscription_renewal_requests(2, 1);
    let nonces: Vec<Option<u128>> = renewals[1].requests.iter().map(|r| r.nonce).collect();
    assert_eq!(nonces, [Some(2)]);
    let others = oracle.get_requests_calling(&n("other"), 5, 5);
    assert_eq!(others[1].requests.len(), 1);
    assert_eq!(others[1].requests[0].nonce, Some(4));
}

#[test]
fn answers_are_delivered_and_requests_closed() {
    let mut oracle = oracle();
    let me = n(ORACLE);
    oracle.add_authorization(&me, &me, n("node.testnet")).unwrap();
    ask(&mut oracle, "jane.testnet", "on_answer", Some(5)).unwrap();
    ask(&mut oracle, "jane.testnet", "on_answer", Some(6)).unwrap();
    let gas = 300_000_000_000_000u64;
    let deliver = |oracle: &Oracle, signer: &str, prepaid: u64, used: u64, account: &str, nonce| {
        oracle.fulfill_request(&n(signer), &me, prepaid, used, 3, &n(account), nonce, n("answer"))
    };
    assert!(matches!(
        deliver(&oracle, "jane.testnet", gas, 0, "jane.testnet", 5),
        Err(OracleError::NotAuthorized)
    ));
    assert!(matches!(
        deliver(&oracle, "node.testnet", 1_000_000_000, 0, "jane.testnet", 5),
        Err(OracleError::InsufficientGas)
    ));
    assert!(matches!(
        deliver(&oracle, "node.testnet", 5, 6, "jane.testnet", 5),
        Err(OracleError::InsufficientGas)
    ));
    assert!(matches!(
        deliver(&oracle, "node.testnet", gas, 0, "joe.testnet", 5),
        Err(OracleError::AccountNotFound)
    ));
    assert!(matches!(
        deliver(&oracle, "node.testnet", gas, 0, "jane.testnet", 7),
        Err(OracleError::RequestNotFound)
    ));
    let delivery = deliver(&oracle, "node.testnet", gas, 0, "jane.testnet", 5).unwrap();
    assert_eq!(delivery.callback_address, "client.testnet");
    assert_eq!(delivery.callback_method, "on_answer");
    assert_eq!(delivery.nonce, 5);
    assert_eq!(delivery.answer, "answer");
    assert_eq!(delivery.deposit, 3);
    assert_eq!(delivery.callback_gas, 200_000_000_000_000);
    assert_eq!(delivery.post_callback_gas, 50_000_000_000_000);
    assert!(deliver(&oracle, ORACLE, 1_000_000_001, 0, "jane.testnet", 6).is_ok());

    assert_eq!(
        oracle.fulfillment_post_callback(&n("x.testnet"), &me, true, n("jane.testnet"), 5),
        Err(OracleError::NotOwnerPredecessor)
    );
    assert_eq!(
        oracle.fulfillment_post_callback(&me, &me, false, n("jane.testnet"), 5),
        Err(OracleError::PromiseFailed)
    );
    assert_eq!(
        oracle.fulfillment_post_callback(&me, &me, true, n("joe.testnet"), 5),
        Err(OracleError::AccountNotFound)
    );
    assert_eq!(oracle.get_requests(n("jane.testnet"), 10).unwrap().len(), 2);
    assert_eq!(
        oracle.fulfillment_post_callback(&me, &me, true, n("jane.testnet"), 5),
        Ok(())
    );
    let left = oracle.get_requests(n("jane.testnet"), 10).unwrap();
    assert_eq!(left.len(), 1);
    assert_eq!(left[0].nonce, Some(6));
    assert_eq!(
        oracle.fulfillment_post_callback(&me, &me, true, n("jane.testnet"), 5),
        Ok(())
    );
    assert_eq!(oracle.get_requests(n("jane.testnet"), 10).unwrap().len(), 1);
}

#[test]
fn reset_closes_all_requests() {
    let mut oracle = oracle();
    let me = n(ORACLE);
    ask(&mut oracle, "jane.testnet", "m", Some(5)).unwrap();
    assert_eq!(oracle.reset(&n("jane.testnet"), &me), Err(OracleError::NotOwner));
    assert_eq!(oracle.requests.len(), 1);
    assert_eq!(oracle.reset(&me, &me), Ok(()));
    assert!(oracle.requests.is_empty());
    assert_eq!(oracle.get_nonce(&n("jane.testnet")), Some(Some(5)));
}
