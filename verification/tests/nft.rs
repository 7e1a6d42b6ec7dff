use social_tokens::enumerable::page_bounds;
use social_tokens::nft::{
    JsonToken, NFTMetadata, NftError, NonFungibleToken, RoyaltyShare, SupplyCap, TokenMetadata,
};

fn robert() -> String {
    "robert.testnet".to_string()
}

fn test_metadata() -> NFTMetadata {
    NFTMetadata {
        name: "test-nft".to_string(),
        spec: "test-spec".to_string(),
        symbol: "TEST".to_string(),
        icon: None,
        base_uri: None,
        reference: None,
        reference_hash: None,
    }
}

fn titled(title: &str) -> TokenMetadata {
    TokenMetadata {
        title: Some(title.to_string()),
        description: None,
        media: None,
        media_hash: None,
        max_updates: None,
        update_no: None,
        ft_account_id: None,
        ft_amount: None,
        issued_at: None,
        expires_at: None,
        starts_at: None,
        updated_at: None,
        extra: None,
        reference: None,
        reference_hash: None,
    }
}

fn caps(entries: &[(&str, u64)]) -> Vec<SupplyCap> {
    entries
        .iter()
        .map(|(t, cap)| SupplyCap { token_type: t.to_string(), cap: *cap })
        .collect()
}

fn ids_of(tokens: &[JsonToken]) -> Vec<String> {
    tokens.iter().map(|t| t.token_id.clone()).collect()
}

/// Tokens "t0" to "t5": the even ones owned by robert, the odd ones by
/// jane; "t0", "t1" and "t2" of type "reward", "t3" of type "content", the
/// rest without a type.
fn sample() -> NonFungibleToken {
    let mut nft = NonFungibleToken::new(robert(), test_metadata(), caps(&[("reward", 3), ("content", 9)]));
    for n in 0..6 {
        let owner = if n % 2 == 0 { robert() } else { "jane.testnet".to_string() };
        let token_type = match n {
            0 | 1 | 2 => Some("reward".to_string()),
            3 => Some("content".to_string()),
            _ => None,
        };
        nft.nft_mint(
            &robert(),
            Some(format!("t{}", n)),
            titled(&format!("token {}", n)),
            None,
            Some(owner),
            None,
            token_type,
        )
        .unwrap();
    }
    nft
}

#[test]
fn init_nft_contract() {
    let type_supply_caps = caps(&[("unique", 1)]);
    let nft = NonFungibleToken::new(robert(), test_metadata(), type_supply_caps);
    assert_eq!(nft.owner_id, robert(), "Invalid setters on nft.owner_id");
    let metadata = &nft.metadata;
    assert_eq!(metadata.name, "test-nft", "Invalid setters for metadata.name");
    assert_eq!(metadata.symbol, "TEST", "Invalid setters for metadata.symbol")
}

#[test]
fn mint_nft() {
    let type_supply_caps = caps(&[("unique", 1)]);
    let mut nft = NonFungibleToken::new(robert(), test_metadata(), type_supply_caps);
    let token_metadata = titled("Best Nft of the World");
    let mint = nft
        .nft_mint(&robert(), Some("1000".to_string()), token_metadata, None, None, None, None)
        .unwrap();
    assert_eq!(mint, "1000".to_string(), "Invalid setters on mint.token_id");
    let nft_token = nft.nft_token(&"1000".to_string()).unwrap();
    assert_eq!(nft_token.owner_id, robert(), "Invalid setter on nft.owner_id");
    assert_eq!(nft_token.creator_id, robert());
    assert_eq!(nft_token.metadata.title, Some("Best Nft of the World".to_string()));
    assert_eq!(nft_token.token_type, None);
    assert!(nft_token.approved_account_ids.is_empty());
    assert!(nft_token.royalty.is_empty());
}

#[test]
fn mint_numbers_tokens_without_an_identifier() {
    let mut nft = NonFungibleToken::new(robert(), test_metadata(), Vec::new());
    let first = nft
        .nft_mint(&robert(), None, titled("a"), None, None, None, None)
        .unwrap();
    let second = nft
        .nft_mint(&robert(), None, titled("b"), None, None, None, None)
        .unwrap();
    assert_eq!(first, "1");
    assert_eq!(second, "2");
    assert_eq!(nft.nft_token(&"2".to_string()).unwrap().metadata.title, Some("b".to_string()));
}

#[test]
fn token_mint_is_refused() {
    let mut nft = NonFungibleToken::new(robert(), test_metadata(), caps(&[("unique", 1)]));
    let unique = Some("unique".to_string());
    nft.nft_mint(&robert(), Some("a".to_string()), titled("a"), None, None, None, unique.clone())
        .unwrap();
    assert_eq!(
        nft.nft_mint(&robert(), Some("a".to_string()), titled("a"), None, None, None, None),
        Err(NftError::TokenExists)
    );
    assert_eq!(
        nft.nft_mint(&robert(), Some("b".to_string()), titled("b"), None, None, None, unique),
        Err(NftError::SupplyCapReached)
    );
    assert_eq!(
        nft.nft_mint(
            &robert(),
            Some("b".to_string()),
            titled("b"),
            None,
            None,
            None,
            Some("rare".to_string())
        ),
        Err(NftError::UnknownTokenType)
    );
    assert_eq!(nft.nft_tokens(0, 10).len(), 1);
    assert_eq!(nft.nft_supply_for_owner(robert()), 1);
    assert_eq!(nft.nft_supply_for_type(&"unique".to_string()), 1);
    assert!(nft.nft_token(&"b".to_string()).is_none());
}

#[test]
fn mint_records_owner_creator_and_royalty() {
    let mut nft = NonFungibleToken::new(robert(), test_metadata(), Vec::new());
    let shares = vec![RoyaltyShare { account_id: "jane.testnet".to_string(), share: 500 }];
    nft.nft_mint(
        &robert(),
        Some("x".to_string()),
        titled("x"),
        Some(shares),
        Some("jane.testnet".to_string()),
        Some("maker.testnet".to_string()),
        None,
    )
    .unwrap();
    let token = nft.nft_token(&"x".to_string()).unwrap();
    assert_eq!(token.owner_id, "jane.testnet");
    assert_eq!(token.creator_id, "maker.testnet");
    assert_eq!(token.royalty.len(), 1);
    assert_eq!(token.royalty[0].account_id, "jane.testnet");
    assert_eq!(token.royalty[0].share, 500);
    assert_eq!(nft.nft_supply_for_owner("jane.testnet".to_string()), 1);
    assert_eq!(nft.nft_supply_for_owner(robert()), 0);
}

#[test]
fn pages_of_all_tokens() {
    let nft = sample();
    assert_eq!(ids_of(&nft.nft_tokens(0, 10)), ["t0", "t1", "t2", "t3", "t4", "t5"]);
    assert_eq!(ids_of(&nft.nft_tokens(0, 2)), ["t0", "t1"]);
    assert_eq!(ids_of(&nft.nft_tokens(4, 2)), ["t4", "t5"]);
    assert_eq!(ids_of(&nft.nft_tokens(5, 7)), ["t5"]);
    assert!(nft.nft_tokens(6, 1).is_empty());
    assert!(nft.nft_tokens(7, 1).is_empty());
    assert!(nft.nft_tokens(2, 0).is_empty());
    assert_eq!(ids_of(&nft.nft_tokens(3, u64::MAX)), ["t3", "t4", "t5"]);
    assert!(nft.nft_tokens(u64::MAX, u64::MAX).is_empty());
}

#[test]
fn page_bounds_are_clamped() {
    assert_eq!(page_bounds(0, 10, 6), (0, 6));
    assert_eq!(page_bounds(2, 3, 6), (2, 5));
    assert_eq!(page_bounds(6, 3, 6), (6, 6));
    assert_eq!(page_bounds(9, 3, 6), (6, 6));
    assert_eq!(page_bounds(u64::MAX, u64::MAX, 6), (6, 6));
    assert_eq!(page_bounds(1, u64::MAX, 6), (1, 6));
    assert_eq!(page_bounds(0, 0, 0), (0, 0));
}

#[test]
fn batch_of_tokens() {
    let nft = sample();
    let batch = nft.nft_tokens_batch(vec!["t4".to_string(), "t0".to_string(), "t4".to_string()]);
    assert_eq!(ids_of(&batch), ["t4", "t0", "t4"]);
    assert_eq!(batch[1].metadata.title, Some("token 0".to_string()));
    assert!(nft.nft_tokens_batch(Vec::new()).is_empty());
}

#[test]
fn supply_and_pages_by_type() {
    let nft = sample();
    assert_eq!(nft.nft_supply_for_type(&"reward".to_string()), 3);
    assert_eq!(nft.nft_supply_for_type(&"content".to_string()), 1);
    assert_eq!(nft.nft_supply_for_type(&"none".to_string()), 0);
    assert_eq!(
        ids_of(&nft.nft_tokens_for_type("reward".to_string(), 0, 10)),
        ["t0", "t1", "t2"]
    );
    assert_eq!(ids_of(&nft.nft_tokens_for_type("reward".to_string(), 1, 1)), ["t1"]);
    assert!(nft.nft_tokens_for_type("reward".to_string(), 3, 5).is_empty());
    assert!(nft.nft_tokens_for_type("none".to_string(), 0, 5).is_empty());
}

#[test]
fn supply_and_pages_by_owner() {
    let nft = sample();
    assert_eq!(nft.nft_supply_for_owner(robert()), 3);
    assert_eq!(nft.nft_supply_for_owner("jane.testnet".to_string()), 3);
    assert_eq!(nft.nft_supply_for_owner("nobody.testnet".to_string()), 0);
    assert_eq!(ids_of(&nft.nft_tokens_for_owner(robert(), 0, 10)), ["t0", "t2", "t4"]);
    assert_eq!(
        ids_of(&nft.nft_tokens_for_owner("jane.testnet".to_string(), 1, 10)),
        ["t3", "t5"]
    );
    assert!(nft.nft_tokens_for_owner("nobody.testnet".to_string(), 0, 10).is_empty());
}

#[test]
fn pages_by_owner_and_type() {
    let nft = sample();
    assert_eq!(
        ids_of(&nft.nft_tokens_for_owner_by_type(robert(), 0, 10, "reward".to_string())),
        ["t0", "t2"]
    );
    assert_eq!(
        ids_of(&nft.nft_tokens_for_owner_by_type(robert(), 1, 10, "reward".to_string())),
        ["t2"]
    );
    assert_eq!(
        ids_of(&nft.nft_tokens_for_owner_by_type(robert(), 0, 1, "reward".to_string())),
        ["t0"]
    );
    assert_eq!(
        ids_of(&nft.nft_tokens_for_owner_by_type(robert(), 0, 10, "No type".to_string())),
        ["t4"]
    );
    assert_eq!(
        ids_of(&nft.nft_tokens_for_owner_by_type(
            "jane.testnet".to_string(),
            0,
            10,
            "content".to_string()
        )),
        ["t3"]
    );
    assert!(nft
        .nft_tokens_for_owner_by_type(robert(), 0, 10, "content".to_string())
        .is_empty());
}
