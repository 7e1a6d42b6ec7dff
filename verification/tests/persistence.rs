use social_tokens::error::TokenError;
use social_tokens::ft::{FungibleToken, FungibleTokenMetadata};
use social_tokens::ledger::{holdings_within, BalanceEntry, Ledger};
use social_tokens::marketplace::Marketplace;
use social_tokens::metadata::SocialTokensMetadata;
use social_tokens::nft::{NFTMetadata, NonFungibleToken, TokenSet};
use social_tokens::oracle::{AccountRequests, Oracle, OracleRequest, RequestsJSON};
use social_tokens::registry::{CreatorToken, SocialTokens};
use social_tokens::settlement::SocialTokensCore;
use social_tokens::token::SocialToken;
use social_tokens::usecases::{NonceOwner, Received, UsecasesContract};

fn entry(symbol: &str, account: &str, balance: u128) -> BalanceEntry {
    BalanceEntry { symbol: symbol.to_string(), account: account.to_string(), balance }
}

fn record(symbol: &str, supply: u128) -> SocialToken {
    let mut token = SocialToken::new("maker.testnet".to_string(), symbol.to_string());
    token.collateral_amount = 1;
    token.supply = supply;
    token
}

fn about() -> SocialTokensMetadata {
    SocialTokensMetadata { version: None, name: "tokens".to_string(), reference: None, reference_hash: None }
}

fn restored(tokens: Vec<SocialToken>, entries: Vec<BalanceEntry>) -> Option<SocialTokens> {
    SocialTokens::restore("owner.testnet".to_string(), tokens, Vec::new(), entries, 9, about())
}

#[test]
fn ledger_round_trips_through_its_entries() {
    let ledger = Ledger::from_entries(vec![entry("ABC", "a", 5), entry("ABC", "b", 0), entry("XYZ", "a", 7)])
        .unwrap();
    assert_eq!(ledger.st_get_balance(&"ABC".to_string(), &"a".to_string()), Some(5));
    assert_eq!(ledger.st_get_balance(&"XYZ".to_string(), &"a".to_string()), Some(7));
    let copy = ledger.entries();
    let seen: Vec<(&str, &str, u128)> =
        copy.iter().map(|e| (e.symbol.as_str(), e.account.as_str(), e.balance)).collect();
    assert_eq!(seen, [("ABC", "a", 5), ("ABC", "b", 0), ("XYZ", "a", 7)]);
    assert!(Ledger::from_entries(vec![entry("ABC", "a", 5), entry("ABC", "a", 6)]).is_none());
    assert!(Ledger::from_entries(Vec::new()).unwrap().entries().is_empty());
}

#[test]
fn ledger_removes_an_entry_whatever_it_holds() {
    let mut ledger =
        Ledger::from_entries(vec![entry("ABC", "a", 5), entry("ABC", "b", 0), entry("ABC", "c", 1)])
            .unwrap();
    assert_eq!(ledger.remove(&"ABC".to_string(), &"a".to_string()), Some(5));
    assert_eq!(ledger.remove(&"ABC".to_string(), &"a".to_string()), None);
    assert_eq!(ledger.st_get_balance(&"ABC".to_string(), &"b".to_string()), Some(0));
    assert_eq!(ledger.st_get_balance(&"ABC".to_string(), &"c".to_string()), Some(1));
    assert_eq!(ledger.entries().len(), 2);
}

#[test]
fn holdings_are_compared_with_a_limit() {
    let entries = vec![entry("ABC", "a", 5), entry("XYZ", "a", 100), entry("ABC", "b", 7)];
    assert!(holdings_within(&entries, &"ABC".to_string(), 12));
    assert!(holdings_within(&entries, &"ABC".to_string(), 13));
    assert!(!holdings_within(&entries, &"ABC".to_string(), 11));
    assert!(holdings_within(&entries, &"none".to_string(), 0));
    let huge = vec![entry("ABC", "a", u128::MAX), entry("ABC", "b", 1)];
    assert!(!holdings_within(&huge, &"ABC".to_string(), u128::MAX));
}

#[test]
fn contract_is_restored_only_in_a_sound_state() {
    let contract =
        restored(vec![record("ABC", 100)], vec![entry("ABC", "a", 60), entry("ABC", "b", 40)])
            .unwrap();
    assert_eq!(contract.owner_id, "owner.testnet");
    assert_eq!(contract.account_storage_usage, 9);
    assert_eq!(contract.get_social_token_supply(&"ABC".to_string()), Ok(100));
    assert_eq!(contract.get_balance(&"ABC".to_string(), &"a".to_string()), Ok(60));
    assert_eq!(
        contract.get_balance(&"XYZ".to_string(), &"a".to_string()),
        Err(TokenError::AccountNotRegistered)
    );
    assert!(restored(Vec::new(), vec![entry("ABC", "a", 0)]).is_some());
    assert!(restored(Vec::new(), Vec::new()).is_some());
    assert!(restored(vec![record("ABC", 100)], vec![entry("ABC", "a", 60), entry("ABC", "b", 41)])
        .is_none());
    assert!(restored(Vec::new(), vec![entry("ABC", "a", 1)]).is_none());
    assert!(restored(vec![record("ABC", 100), record("ABC", 5)], Vec::new()).is_none());
    assert!(restored(vec![record("ABC", 100)], vec![entry("ABC", "a", 1), entry("ABC", "a", 2)])
        .is_none());
}

#[test]
fn currency_is_restored_only_when_balances_add_up() {
    let about = || FungibleTokenMetadata {
        version: None,
        name: "Token".to_string(),
        symbol: "TKN".to_string(),
        reference: None,
        reference_hash: None,
        decimals: 18,
    };
    let restore = |accounts: Vec<BalanceEntry>, allowances: Vec<BalanceEntry>, total: u128| {
        FungibleToken::restore("owner.testnet".to_string(), accounts, allowances, total, 125, about())
    };
    let token = restore(
        vec![entry("", "owner.testnet", 90), entry("", "jane.testnet", 10)],
        vec![entry("owner.testnet", "escrow.testnet", 4)],
        100,
    )
    .unwrap();
    assert_eq!(token.get_balance(&"jane.testnet".to_string()), Some(10));
    assert_eq!(token.get_allowance("owner.testnet".to_string(), "escrow.testnet".to_string()), 4);
    assert!(restore(vec![entry("", "owner.testnet", 90)], Vec::new(), 100).is_none());
    assert!(restore(vec![entry("", "owner.testnet", 90)], Vec::new(), 89).is_none());
    assert!(restore(Vec::new(), Vec::new(), 0).is_some());
    assert!(restore(vec![entry("", "a", 1), entry("", "a", 1)], Vec::new(), 2).is_none());
    assert!(restore(
        vec![entry("", "a", 1)],
        vec![entry("a", "b", 1), entry("a", "b", 2)],
        1
    )
    .is_none());
}

#[test]
fn marketplace_is_restored_only_without_doubles() {
    let set = |key: &str| TokenSet { key: key.to_string(), token_ids: vec!["s1".to_string()] };
    let restore = |sets: Vec<TokenSet>, tokens: Vec<&str>, paid: Vec<BalanceEntry>| {
        Marketplace::restore(
            "owner.testnet".to_string(),
            sets,
            tokens.into_iter().map(|t| t.to_string()).collect(),
            paid,
        )
    };
    let market = restore(vec![set("a"), set("b")], vec!["near", "ft"], vec![entry("", "a", 5)]).unwrap();
    assert_eq!(market.storage_paid("a".to_string()), 5);
    assert_eq!(market.supported_ft_token_ids(), ["near", "ft"]);
    assert!(restore(vec![set("a"), set("a")], vec!["near"], Vec::new()).is_none());
    assert!(restore(Vec::new(), vec!["near", "near"], Vec::new()).is_none());
    assert!(restore(Vec::new(), vec!["near"], vec![entry("", "a", 5), entry("", "a", 5)]).is_none());
}

#[test]
fn catalog_validity() {
    let metadata = NFTMetadata {
        spec: "nft-1".to_string(),
        name: "n".to_string(),
        symbol: "N".to_string(),
        icon: None,
        base_uri: None,
        reference: None,
        reference_hash: None,
    };
    let mut nft = NonFungibleToken::new("owner.testnet".to_string(), metadata, Vec::new());
    assert!(nft.is_valid());
    nft.tokens_per_owner.push(TokenSet { key: "a".to_string(), token_ids: vec!["ghost".to_string()] });
    assert!(!nft.is_valid());
    nft.tokens_per_owner.clear();
    nft.tokens_per_type.push(TokenSet { key: "t".to_string(), token_ids: Vec::new() });
    nft.tokens_per_type.push(TokenSet { key: "t".to_string(), token_ids: Vec::new() });
    assert!(!nft.is_valid());
}

#[test]
fn oracle_validity() {
    let request = |nonce: Option<u128>| RequestsJSON {
        nonce,
        request: OracleRequest {
            callback_address: "c".to_string(),
            callback_method: "m".to_string(),
            data: "d".to_string(),
            expiration: 1,
        },
    };
    let of = |account: &str, nonces: Vec<Option<u128>>| AccountRequests {
        account: account.to_string(),
        requests: nonces.into_iter().map(request).collect(),
    };
    let mut oracle = Oracle::new("oracle.testnet".to_string()).unwrap();
    assert!(oracle.is_valid());
    oracle.requests = vec![of("a", vec![None, Some(1), Some(5)]), of("b", vec![Some(2)])];
    assert!(oracle.is_valid());
    oracle.requests = vec![of("b", vec![]), of("a", vec![])];
    assert!(!oracle.is_valid());
    oracle.requests = vec![of("a", vec![]), of("a", vec![])];
    assert!(!oracle.is_valid());
    oracle.requests = vec![of("a", vec![Some(5), Some(1)])];
    assert!(!oracle.is_valid());
    oracle.requests = vec![of("a", vec![Some(1), None])];
    assert!(!oracle.is_valid());
    oracle.requests = vec![of("a", vec![Some(1), Some(1)])];
    assert!(!oracle.is_valid());
    oracle.requests = Vec::new();
    oracle.authorized_nodes = vec!["n".to_string(), "n".to_string()];
    assert!(!oracle.is_valid());
}

#[test]
fn usecases_validity() {
    let mut contract = UsecasesContract::new("owner.testnet".to_string());
    assert!(contract.is_valid());
    contract.trusted_oracles = vec!["o".to_string(), "p".to_string()];
    contract.nonce_owner = vec![NonceOwner { nonce: "0".to_string(), owner: "a".to_string() }];
    contract.received = vec![
        Received { nonce: "0".to_string(), answer: "x".to_string() },
        Received { nonce: "1".to_string(), answer: "x".to_string() },
    ];
    assert!(contract.is_valid());
    contract.received.push(Received { nonce: "0".to_string(), answer: "y".to_string() });
    assert!(!contract.is_valid());
    contract.received.clear();
    contract.trusted_oracles.push("o".to_string());
    assert!(!contract.is_valid());
}

#[test]
fn contract_is_restored_with_its_creators() {
    let made = |creator: &str, symbol: &str| CreatorToken {
        creator: creator.to_string(),
        symbol: symbol.to_string(),
    };
    let restore = |creators: Vec<CreatorToken>| {
        SocialTokens::restore(
            "owner.testnet".to_string(),
            vec![record("ABC", 100)],
            creators,
            Vec::new(),
            9,
            about(),
        )
    };
    let contract = restore(vec![made("a", "ABC"), made("b", "XYZ")]).unwrap();
    assert_eq!(contract.social_tokens_by_creator_id.len(), 2);
    assert_eq!(contract.social_tokens_by_creator_id[1].symbol, "XYZ");
    assert!(restore(vec![made("a", "ABC"), made("a", "XYZ")]).is_none());
}
