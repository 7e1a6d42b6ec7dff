use vstd::prelude::*;
use crate::curve::{
    BondingCurveInterface, purchase_return, purchase_return_spec, sale_return, sale_return_spec, MINT_RESERVE_RATIO,
};
use crate::guard::{assert_one_yocto, ONE_YOCTO};
use crate::keyed::{
    distinct, find, keys_distinct, keys_of, lemma_position_unique, lemma_push_distinct, with_pair,
    Keyed,
};
use crate::error::TokenError;
use crate::ledger::{
    entry_views, holdings_within, lemma_holdings_of_unused_symbol, BalanceEntry, balance_of,
    deposit_spec, holdings, lemma_deposit_holdings, lemma_withdraw_holdings, withdraw_spec,
    EntryView, Ledger,
};
use crate::metadata::{SocialTokensMetadata, SocialTokensMetadataProvider};
use crate::token::{
    collateral_account_id, collateral_account_of, SocialToken, TokenView, INITIAL_RESERVE,
    INITIAL_SUPPLY,
};

verus! {

/// No two records are kept under the same symbol.
pub open spec fn distinct_symbols(tokens: Seq<TokenView>) -> bool {
    forall|i: int, j: int|
        0 <= i < tokens.len() && 0 <= j < tokens.len() && i != j ==> (#[trigger] tokens[i]).symbol
            != (#[trigger] tokens[j]).symbol
}

/// Whether a token is recorded under `symbol`.
pub open spec fn token_exists(tokens: Seq<TokenView>, symbol: Seq<char>) -> bool {
    exists|i: int| 0 <= i < tokens.len() && (#[trigger] tokens[i]).symbol == symbol
}

/// The place of the record kept under `symbol`, where there is one.
pub open spec fn token_index(tokens: Seq<TokenView>, symbol: Seq<char>) -> int {
    choose|i: int| 0 <= i < tokens.len() && (#[trigger] tokens[i]).symbol == symbol
}

/// The record kept under `symbol`.
pub open spec fn token_of(tokens: Seq<TokenView>, symbol: Seq<char>) -> Option<TokenView> {
    if token_exists(tokens, symbol) {
        Some(tokens[token_index(tokens, symbol)])
    } else {
        None
    }
}

/// The circulating supply under `symbol`: nothing, where no token is
/// recorded.
pub open spec fn supply_of(tokens: Seq<TokenView>, symbol: Seq<char>) -> nat {
    match token_of(tokens, symbol) {
        Some(token) => token.supply as nat,
        None => 0,
    }
}

/// The records with `token` kept under its symbol, in place of the record
/// that was kept there, if any.
pub open spec fn with_token(tokens: Seq<TokenView>, token: TokenView) -> Seq<TokenView> {
    if token_exists(tokens, token.symbol) {
        tokens.update(token_index(tokens, token.symbol), token)
    } else {
        tokens.push(token)
    }
}

/// The views of a sequence of records.
pub open spec fn token_views(tokens: Seq<SocialToken>) -> Seq<TokenView> {
    tokens.map_values(|t: SocialToken| t@)
}

/// Under every symbol the ledger holds no more than the supply.
pub open spec fn backed(tokens: Seq<TokenView>, entries: Seq<EntryView>) -> bool {
    forall|symbol: Seq<char>| #[trigger] holdings(entries, symbol) <= supply_of(tokens, symbol)
}

/// With distinct symbols, the record found at a place is the record of its
/// symbol.
pub proof fn lemma_token_index_unique(tokens: Seq<TokenView>, i: int)
    requires
        distinct_symbols(tokens),
        0 <= i < tokens.len(),
    ensures
        token_exists(tokens, tokens[i].symbol),
        token_index(tokens, tokens[i].symbol) == i,
        token_of(tokens, tokens[i].symbol) == Some(tokens[i]),
{
    let j = token_index(tokens, tokens[i].symbol);
    assert(tokens[j].symbol == tokens[i].symbol);
}

/// Keeping a record changes what is kept under its symbol and under no
/// other, and keeps the symbols distinct.
pub proof fn lemma_with_token_lookup(tokens: Seq<TokenView>, token: TokenView, symbol: Seq<char>)
    requires
        distinct_symbols(tokens),
    ensures
        distinct_symbols(with_token(tokens, token)),
        token_of(with_token(tokens, token), symbol) == if symbol == token.symbol {
            Some(token)
        } else {
            token_of(tokens, symbol)
        },
{
    let next = with_token(tokens, token);
    let k = if token_exists(tokens, token.symbol) {
        token_index(tokens, token.symbol)
    } else {
        tokens.len() as int
    };
    assert(next[k] == token);
    assert forall|i: int, j: int|
        0 <= i < next.len() && 0 <= j < next.len() && i != j implies (#[trigger] next[i]).symbol
        != (#[trigger] next[j]).symbol by {
        if i != k {
            assert(next[i] == tokens[i]);
        }
        if j != k {
            assert(next[j] == tokens[j]);
        }
    }
    if symbol == token.symbol {
        lemma_token_index_unique(next, k);
    } else if token_exists(tokens, symbol) {
        let j = token_index(tokens, symbol);
        assert(next[j] == tokens[j]);
        lemma_token_index_unique(next, j);
    } else if token_exists(next, symbol) {
        let j = token_index(next, symbol);
        assert(next[j] == tokens[j]);
    }
}

/// The account of the ledger that holds the collateral.
pub const FT_ACCOUNT_ID: &'static str = "ft.momentize.testnet";

/// What is paid to register a collateral vault with the collateral ledger.
pub const DEPOSIT_FOR_FT_ACCOUNT_REGISTRATION: u128 = 1_250_000_000_000_000_000_000;

/// The compute allowance handed to a call of the collateral ledger.
pub const GAS_FOR_FT_TRANSFER: u64 = 5_000_000_000_000;

/// A movement of collateral that the external collateral ledger is asked
/// to make.
pub struct CollateralMove {
    pub from: String,
    pub to: String,
    pub amount: u128,
}

/// The funding of a new token's vault: the vault is registered with the
/// collateral ledger, then one unit of collateral moves from the creator
/// into it.
pub struct VaultFunding {
    pub vault: String,
    pub registration_deposit: u128,
    pub collateral: CollateralMove,
}

/// What stands in the way of creating a token, if anything does: the call
/// must carry the one-unit payment, and the symbol must be free.
pub open spec fn creation_refusal(
    tokens: Seq<TokenView>,
    attached_deposit: u128,
    symbol: Seq<char>,
) -> Option<TokenError> {
    if attached_deposit != ONE_YOCTO {
        Some(TokenError::Unauthorized)
    } else if token_exists(tokens, symbol) {
        Some(TokenError::TokenAlreadyExists)
    } else {
        None
    }
}

/// The record a token starts with: a reserve of one and a supply of one
/// hundred.
pub open spec fn initial_token(creator: Seq<char>, symbol: Seq<char>) -> TokenView {
    TokenView {
        creator_id: creator,
        collateral_account_id: collateral_account_of(symbol),
        symbol,
        collateral_amount: INITIAL_RESERVE,
        supply: INITIAL_SUPPLY,
    }
}

/// What the creation of a token does to the registry. Nothing is recorded
/// unless the vault was funded.
pub open spec fn create_spec(
    tokens: Seq<TokenView>,
    caller: Seq<char>,
    attached_deposit: u128,
    symbol: Seq<char>,
    funded: bool,
) -> Result<Seq<TokenView>, TokenError> {
    match creation_refusal(tokens, attached_deposit, symbol) {
        Some(e) => Err(e),
        None => if !funded {
            Err(TokenError::CollateralMoveFailed)
        } else {
            Ok(with_token(tokens, initial_token(caller, symbol)))
        },
    }
}

/// The arguments at which the curve prices a mint or a burn: the value of
/// the curve's power formula is wanted for exactly these.
#[derive(Clone, Copy, Debug, PartialEq, Eq, Structural)]
pub struct CurvePoint {
    pub supply: u128,
    pub reserve: u128,
    pub ratio: u32,
    pub amount: u128,
}

/// Where the curve prices a mint: at the token's supply and at its reserve
/// raised by the collateral.
pub open spec fn mint_point(token: TokenView, collateral_amount: u128) -> CurvePoint {
    CurvePoint {
        supply: token.supply,
        reserve: (token.collateral_amount + collateral_amount) as u128,
        ratio: MINT_RESERVE_RATIO,
        amount: collateral_amount,
    }
}

/// Where the curve prices a burn: at the token's supply lowered by the
/// tokens burned, and at its reserve.
pub open spec fn burn_point(token: TokenView, token_amount: u128) -> CurvePoint {
    CurvePoint {
        supply: (token.supply - token_amount) as u128,
        reserve: token.collateral_amount,
        ratio: MINT_RESERVE_RATIO,
        amount: token_amount,
    }
}

/// What a mint does to registry and ledger: the collateral joins the
/// reserve, the curve prices it at the reserve so raised, the tokens bought
/// join the supply and the caller's balance.
pub open spec fn mint_spec(
    tokens: Seq<TokenView>,
    entries: Seq<EntryView>,
    caller: Seq<char>,
    symbol: Seq<char>,
    collateral_amount: u128,
    fractional: u128,
) -> Result<(Seq<TokenView>, Seq<EntryView>), TokenError> {
    match token_of(tokens, symbol) {
        None => Err(TokenError::NotFound),
        Some(token) => if token.collateral_amount + collateral_amount > u128::MAX {
            Err(TokenError::BalanceOverflow)
        } else {
            let point = mint_point(token, collateral_amount);
            let reserve = point.reserve;
            match purchase_return_spec(
                point.supply,
                point.reserve,
                point.ratio,
                point.amount,
                fractional,
            ) {
                Err(e) => Err(e),
                Ok(bought) => if token.supply + bought > u128::MAX {
                    Err(TokenError::BalanceOverflow)
                } else {
                    match deposit_spec(entries, symbol, caller, bought) {
                        Err(e) => Err(e),
                        Ok(credited) => Ok(
                            (
                                with_token(
                                    tokens,
                                    TokenView {
                                        collateral_amount: reserve,
                                        supply: (token.supply + bought) as u128,
                                        ..token
                                    },
                                ),
                                credited,
                            ),
                        ),
                    }
                },
            }
        },
    }
}

/// What a burn does to registry and ledger: the tokens leave the supply,
/// the curve prices them at the supply so lowered, the collateral released
/// leaves the reserve, and the tokens leave the caller's balance.
pub open spec fn burn_spec(
    tokens: Seq<TokenView>,
    entries: Seq<EntryView>,
    caller: Seq<char>,
    symbol: Seq<char>,
    token_amount: u128,
    fractional: u128,
) -> Result<(Seq<TokenView>, Seq<EntryView>), TokenError> {
    match token_of(tokens, symbol) {
        None => Err(TokenError::NotFound),
        Some(token) => if token.supply < token_amount {
            Err(TokenError::InsufficientBalance)
        } else {
            let point = burn_point(token, token_amount);
            let supply = point.supply;
            match sale_return_spec(
                point.supply,
                point.reserve,
                point.ratio,
                point.amount,
                fractional,
            ) {
                Err(e) => Err(e),
                Ok(released) => if token.collateral_amount < released {
                    Err(TokenError::InsufficientBalance)
                } else {
                    match withdraw_spec(entries, symbol, caller, token_amount) {
                        Err(e) => Err(e),
                        Ok(debited) => Ok(
                            (
                                with_token(
                                    tokens,
                                    TokenView {
                                        collateral_amount: (token.collateral_amount
                                            - released) as u128,
                                        supply,
                                        ..token
                                    },
                                ),
                                debited,
                            ),
                        ),
                    }
                },
            }
        },
    }
}

/// What a mint through the contract does: the token must be recorded and
/// the collateral must have reached its vault; then the mint proceeds.
pub open spec fn st_mint_spec(
    tokens: Seq<TokenView>,
    entries: Seq<EntryView>,
    caller: Seq<char>,
    symbol: Seq<char>,
    collateral_amount: u128,
    collateral_moved: bool,
    fractional: u128,
) -> Result<(Seq<TokenView>, Seq<EntryView>), TokenError> {
    if token_of(tokens, symbol) is None {
        Err(TokenError::NotFound)
    } else if !collateral_moved {
        Err(TokenError::CollateralMoveFailed)
    } else {
        mint_spec(tokens, entries, caller, symbol, collateral_amount, fractional)
    }
}

/// What a burn through the contract does: the token must be recorded and
/// the collateral must have left its vault; then the burn proceeds.
pub open spec fn st_burn_spec(
    tokens: Seq<TokenView>,
    entries: Seq<EntryView>,
    caller: Seq<char>,
    symbol: Seq<char>,
    burn_amount: u128,
    collateral_moved: bool,
    fractional: u128,
) -> Result<(Seq<TokenView>, Seq<EntryView>), TokenError> {
    if token_of(tokens, symbol) is None {
        Err(TokenError::NotFound)
    } else if !collateral_moved {
        Err(TokenError::CollateralMoveFailed)
    } else {
        burn_spec(tokens, entries, caller, symbol, burn_amount, fractional)
    }
}

/// A mint that succeeds raises the supply and the holdings under its symbol
/// by the same number of tokens, and changes neither under any other
/// symbol: where supply and holdings were equal they stay equal.
pub proof fn lemma_mint_conserves(
    tokens: Seq<TokenView>,
    entries: Seq<EntryView>,
    caller: Seq<char>,
    symbol: Seq<char>,
    collateral_amount: u128,
    fractional: u128,
    other_symbol: Seq<char>,
)
    requires
        distinct_symbols(tokens),
        mint_spec(tokens, entries, caller, symbol, collateral_amount, fractional) is Ok,
    ensures
        ({
            let next = mint_spec(tokens, entries, caller, symbol, collateral_amount, fractional)->Ok_0;
            &&& distinct_symbols(next.0)
            &&& supply_of(next.0, other_symbol) - holdings(next.1, other_symbol) == supply_of(
                tokens,
                other_symbol,
            ) - holdings(entries, other_symbol)
            &&& other_symbol != symbol ==> supply_of(next.0, other_symbol) == supply_of(
                tokens,
                other_symbol,
            )
        }),
{
    let token = token_of(tokens, symbol)->Some_0;
    let reserve = (token.collateral_amount + collateral_amount) as u128;
    let bought = purchase_return_spec(
        token.supply,
        reserve,
        MINT_RESERVE_RATIO,
        collateral_amount,
        fractional,
    )->Ok_0;
    let minted = TokenView {
        collateral_amount: reserve,
        supply: (token.supply + bought) as u128,
        ..token
    };
    lemma_with_token_lookup(tokens, minted, other_symbol);
    lemma_deposit_holdings(entries, symbol, caller, bought, other_symbol);
}

/// A burn that succeeds lowers the supply and the holdings under its symbol
/// by the same number of tokens, and changes neither under any other
/// symbol: where supply and holdings were equal they stay equal.
pub proof fn lemma_burn_conserves(
    tokens: Seq<TokenView>,
    entries: Seq<EntryView>,
    caller: Seq<char>,
    symbol: Seq<char>,
    token_amount: u128,
    fractional: u128,
    other_symbol: Seq<char>,
)
    requires
        distinct_symbols(tokens),
        burn_spec(tokens, entries, caller, symbol, token_amount, fractional) is Ok,
    ensures
        ({
            let next = burn_spec(tokens, entries, caller, symbol, token_amount, fractional)->Ok_0;
            &&& distinct_symbols(next.0)
            &&& supply_of(next.0, other_symbol) - holdings(next.1, other_symbol) == supply_of(
                tokens,
                other_symbol,
            ) - holdings(entries, other_symbol)
            &&& other_symbol != symbol ==> supply_of(next.0, other_symbol) == supply_of(
                tokens,
                other_symbol,
            )
        }),
{
    let token = token_of(tokens, symbol)->Some_0;
    let supply = (token.supply - token_amount) as u128;
    let released = sale_return_spec(
        supply,
        token.collateral_amount,
        MINT_RESERVE_RATIO,
        token_amount,
        fractional,
    )->Ok_0;
    let burned = TokenView {
        collateral_amount: (token.collateral_amount - released) as u128,
        supply,
        ..token
    };
    lemma_with_token_lookup(tokens, burned, other_symbol);
    lemma_withdraw_holdings(entries, symbol, caller, token_amount, other_symbol);
}

/// The token that an account created last.
pub struct CreatorToken {
    pub creator: String,
    pub symbol: String,
}

impl Keyed for CreatorToken {
    open spec fn key_view(&self) -> Seq<char> {
        self.creator@
    }

    fn key(&self) -> (key: &String) {
        &self.creator
    }
}

/// The creators with the tokens they created last, as the contracts see
/// them.
pub open spec fn creator_views(creators: Seq<CreatorToken>) -> Seq<(Seq<char>, Seq<char>)> {
    creators.map_values(|c: CreatorToken| (c.creator@, c.symbol@))
}

/// The state of the social-token contract: the token registry and the
/// balance ledger, with what the contract says of itself.
pub struct SocialTokens {
    /// The account that owns the contract.
    pub owner_id: String,
    /// The token registry: one record per symbol.
    pub social_tokens: Vec<SocialToken>,
    /// For each account that created a token, the token it created last.
    pub social_tokens_by_creator_id: Vec<CreatorToken>,
    /// The balance ledger.
    pub st_to_accounts: Ledger,
    /// The bytes of storage that one balance entry takes.
    pub account_storage_usage: u64,
    /// What the contract says of itself.
    pub st_metadata: SocialTokensMetadata,
}

impl SocialTokens {
    /// The token registry as the contracts see it.
    pub open spec fn tokens(&self) -> Seq<TokenView> {
        token_views(self.social_tokens@)
    }

    /// The balance ledger as the contracts see it.
    pub open spec fn balances(&self) -> Seq<EntryView> {
        self.st_to_accounts@
    }

    /// The creators with the tokens they created last, as the contracts
    /// see them.
    pub open spec fn creators(&self) -> Seq<(Seq<char>, Seq<char>)> {
        creator_views(self.social_tokens_by_creator_id@)
    }

    /// The contract's invariant: one record per symbol, one entry per
    /// account and symbol, one last token per creator, and under no symbol
    /// more units held than are in circulation.
    pub open spec fn wf(&self) -> bool {
        &&& self.st_to_accounts.wf()
        &&& distinct_symbols(self.tokens())
        &&& distinct(keys_of(self.social_tokens_by_creator_id@))
        &&& backed(self.tokens(), self.balances())
    }

    /// Whether `other` differs from this state in the registry and the
    /// ledger at most.
    pub open spec fn same_settings(&self, other: &SocialTokens) -> bool {
        &&& self.owner_id == other.owner_id
        &&& self.social_tokens_by_creator_id == other.social_tokens_by_creator_id
        &&& self.account_storage_usage == other.account_storage_usage
        &&& self.st_metadata == other.st_metadata
    }

    /// A contract owned by `owner_id`, with no token and no balance entry.
    pub fn new(
        owner_id: String,
        version: Option<String>,
        name: String,
        reference: Option<String>,
        reference_hash: Option<[u8; 32]>,
    ) -> (contract: SocialTokens)
        ensures
            contract.wf(),
            contract.owner_id == owner_id,
            contract.tokens() == Seq::<TokenView>::empty(),
            contract.social_tokens_by_creator_id@ == Seq::<CreatorToken>::empty(),
            contract.balances() == Seq::<EntryView>::empty(),
            contract.account_storage_usage == 0,
            contract.st_metadata == (SocialTokensMetadata {
                version,
                name,
                reference,
                reference_hash,
            }),
    {
        let contract = SocialTokens {
            owner_id,
            social_tokens: Vec::new(),
            social_tokens_by_creator_id: Vec::new(),
            st_to_accounts: Ledger::new(),
            account_storage_usage: 0,
            st_metadata: SocialTokensMetadata { version, name, reference, reference_hash },
        };
        assert(contract.tokens() =~= Seq::<TokenView>::empty());
        assert(keys_of(contract.social_tokens_by_creator_id@) =~= Seq::<Seq<char>>::empty());
        assert(forall|symbol: Seq<char>|
            #[trigger] holdings(contract.balances(), symbol) == 0);
        contract
    }

    /// The place of the record kept under `symbol`.
    fn find_token(&self, symbol: &String) -> (place: Option<usize>)
        ensures
            match place {
                Some(i) => i < self.tokens().len() && self.tokens()[i as int].symbol == symbol@,
                None => !token_exists(self.tokens(), symbol@),
            },
    {
        let mut i: usize = 0;
        while i < self.social_tokens.len()
            invariant
                i <= self.social_tokens.len(),
                forall|j: int| 0 <= j < i ==> (#[trigger] self.tokens()[j]).symbol != symbol@,
            decreases self.social_tokens.len() - i,
        {
            if self.social_tokens[i].symbol == *symbol {
                return Some(i);
            }
            i += 1;
        }
        None
    }

    /// The place of the record kept under `symbol`, for the rest of the
    /// crate.
    pub(crate) fn find_token_place(&self, symbol: &String) -> (place: Option<usize>)
        requires
            distinct_symbols(self.tokens()),
        ensures
            match place {
                Some(i) => i < self.tokens().len() && token_of(self.tokens(), symbol@) == Some(
                    self.tokens()[i as int],
                ) && self.tokens()[i as int].symbol == symbol@ && token_index(
                    self.tokens(),
                    symbol@,
                ) == i,
                None => token_of(self.tokens(), symbol@) is None,
            },
    {
        let place = self.find_token(symbol);
        proof {
            if let Some(i) = place {
                lemma_token_index_unique(self.tokens(), i as int);
            }
        }
        place
    }

    /// A copy of the record kept under `token_symbol`, if there is one.
    pub fn get_social_token(&self, token_symbol: &String) -> (token: Option<SocialToken>)
        requires
            self.wf(),
        ensures
            match token {
                Some(t) => token_of(self.tokens(), token_symbol@) == Some(t@),
                None => token_of(self.tokens(), token_symbol@) is None,
            },
    {
        match self.find_token(token_symbol) {
            None => None,
            Some(i) => {
                proof {
                    lemma_token_index_unique(self.tokens(), i as int);
                }
                let kept = &self.social_tokens[i];
                Some(
                    SocialToken {
                        creator_id: kept.creator_id.clone(),
                        collateral_account_id: kept.collateral_account_id.clone(),
                        symbol: kept.symbol.clone(),
                        collateral_amount: kept.collateral_amount,
                        supply: kept.supply,
                    },
                )
            },
        }
    }

    /// Records `symbol` as the token that `creator` created last.
    fn record_creator(&mut self, creator: &String, symbol: &String)
        requires
            distinct(keys_of(old(self).social_tokens_by_creator_id@)),
        ensures
            distinct(keys_of(final(self).social_tokens_by_creator_id@)),
            final(self).creators() == with_pair(old(self).creators(), creator@, symbol@),
            final(self).social_tokens == old(self).social_tokens,
            final(self).st_to_accounts == old(self).st_to_accounts,
            final(self).owner_id == old(self).owner_id,
            final(self).account_storage_usage == old(self).account_storage_usage,
            final(self).st_metadata == old(self).st_metadata,
    {
        let ghost before = self.creators();
        let ghost keys = keys_of(self.social_tokens_by_creator_id@);
        assert(keys =~= before.map_values(|p: (Seq<char>, Seq<char>)| p.0));
        match find(&self.social_tokens_by_creator_id, creator) {
            Some(i) => {
                proof {
                    lemma_position_unique(keys, i as int);
                }
                self.social_tokens_by_creator_id[i].symbol = symbol.clone();
                assert(keys_of(self.social_tokens_by_creator_id@) =~= keys);
            },
            None => {
                proof {
                    lemma_push_distinct(keys, creator@);
                }
                self.social_tokens_by_creator_id.push(
                    CreatorToken { creator: creator.clone(), symbol: symbol.clone() },
                );
                assert(keys_of(self.social_tokens_by_creator_id@) =~= keys.push(creator@));
            },
        }
        assert(self.creators() =~= with_pair(before, creator@, symbol@));
    }

    /// Keeps `token` under its symbol, in place of the record that was kept
    /// there, if any.
    fn set_social_token(&mut self, token: SocialToken)
        requires
            distinct_symbols(old(self).tokens()),
        ensures
            final(self).tokens() == with_token(old(self).tokens(), token@),
            distinct_symbols(final(self).tokens()),
            final(self).st_to_accounts == old(self).st_to_accounts,
            final(self).same_settings(old(self)),
    {
        proof {
            lemma_with_token_lookup(self.tokens(), token@, token@.symbol);
        }
        match self.find_token(&token.symbol) {
            Some(i) => {
                proof {
                    lemma_token_index_unique(self.tokens(), i as int);
                }
                self.social_tokens[i] = token;
            },
            None => {
                self.social_tokens.push(token);
            },
        }
        assert(self.tokens() =~= with_token(old(self).tokens(), token@));
    }
    /// Whether `other` holds the same registry, the same ledger and the same
    /// settings as this state.
    pub open spec fn unchanged(&self, other: &SocialTokens) -> bool {
        &&& self.tokens() == other.tokens()
        &&& self.balances() == other.balances()
        &&& self.same_settings(other)
    }

    /// The collateral vault of the token `token_symbol`, or `NotFound` where
    /// no such token is recorded.
    pub fn st_collateral_account_id(&self, token_symbol: &String) -> (vault: Result<
        String,
        TokenError,
    >)
        requires
            self.wf(),
        ensures
            match token_of(self.tokens(), token_symbol@) {
                Some(token) => vault matches Ok(id) && id@ == token.collateral_account_id,
                None => vault matches Err(e) && e == TokenError::NotFound,
            },
    {
        match self.find_token(token_symbol) {
            None => Err(TokenError::NotFound),
            Some(i) => {
                proof {
                    lemma_token_index_unique(self.tokens(), i as int);
                }
                Ok(self.social_tokens[i].collateral_account_id.clone())
            },
        }
    }

    /// Whether `caller` may perform the privileged operations on the token
    /// `token_symbol`: its creator may, and the contract's owner may.
    pub fn is_privileged(&self, token_symbol: &String, caller: &String) -> (allowed: bool)
        requires
            self.wf(),
        ensures
            allowed == (caller@ == self.owner_id@ || (token_of(self.tokens(), token_symbol@) matches Some(
                token,
            ) && token.creator_id == caller@)),
    {
        if *caller == self.owner_id {
            return true;
        }
        match self.find_token(token_symbol) {
            None => false,
            Some(i) => {
                proof {
                    lemma_token_index_unique(self.tokens(), i as int);
                }
                self.social_tokens[i].creator_id == *caller
            },
        }
    }

    /// Checks a request to create the token `token_symbol` and says how its
    /// vault is to be funded: the vault is registered with the collateral
    /// ledger, and one unit of collateral moves into it from the caller. The
    /// request is refused without the one-unit payment (`Unauthorized`) and
    /// where the symbol is taken (`TokenAlreadyExists`).
    pub fn plan_creation(
        &self,
        caller: &String,
        attached_deposit: u128,
        token_symbol: &String,
    ) -> (plan: Result<VaultFunding, TokenError>)
        requires
            self.wf(),
        ensures
            match creation_refusal(self.tokens(), attached_deposit, token_symbol@) {
                Some(e) => plan matches Err(refusal) && refusal == e,
                None => plan matches Ok(funding) && funding.vault@ == collateral_account_of(
                    token_symbol@,
                ) && funding.registration_deposit == DEPOSIT_FOR_FT_ACCOUNT_REGISTRATION
                    && funding.collateral.from@ == caller@ && funding.collateral.to@
                    == collateral_account_of(token_symbol@) && funding.collateral.amount
                    == INITIAL_RESERVE,
            },
    {
        match assert_one_yocto(attached_deposit) {
            Err(e) => {
                return Err(e);
            },
            Ok(()) => {},
        }
        if self.find_token(token_symbol).is_some() {
            return Err(TokenError::TokenAlreadyExists);
        }
        let vault = collateral_account_id(token_symbol);
        Ok(
            VaultFunding {
                vault: vault.clone(),
                registration_deposit: DEPOSIT_FOR_FT_ACCOUNT_REGISTRATION,
                collateral: CollateralMove {
                    from: caller.clone(),
                    to: vault,
                    amount: INITIAL_RESERVE,
                },
            },
        )
    }

    /// Creates the token `token_symbol` for `caller`, once the funding of
    /// its vault has been attempted: `funded` says whether the collateral
    /// ledger accepted it. The request is checked as `plan_creation` checks
    /// it; where the funding failed the creation fails as a whole with
    /// `CollateralMoveFailed`. On success the token is recorded with a
    /// reserve of one and a supply of one hundred, the caller is recorded
    /// as having created it last, and the storage one balance entry takes
    /// is set to `entry_storage_usage`. A creation that fails changes
    /// nothing.
    pub fn create_social_token(
        &mut self,
        caller: &String,
        attached_deposit: u128,
        token_symbol: String,
        funded: bool,
        entry_storage_usage: u64,
    ) -> (done: Result<(), TokenError>)
        requires
            old(self).wf(),
        ensures
            final(self).wf(),
            match done {
                Ok(()) => {
                    &&& create_spec(
                        old(self).tokens(),
                        caller@,
                        attached_deposit,
                        token_symbol@,
                        funded,
                    ) == Ok::<Seq<TokenView>, TokenError>(final(self).tokens())
                    &&& final(self).creators() == with_pair(
                        old(self).creators(),
                        caller@,
                        token_symbol@,
                    )
                    &&& final(self).balances() == old(self).balances()
                    &&& final(self).owner_id == old(self).owner_id
                    &&& final(self).st_metadata == old(self).st_metadata
                    &&& final(self).account_storage_usage == entry_storage_usage
                },
                Err(e) => create_spec(
                    old(self).tokens(),
                    caller@,
                    attached_deposit,
                    token_symbol@,
                    funded,
                ) == Err::<Seq<TokenView>, TokenError>(e) && final(self).unchanged(old(self)),
            },
    {
        match self.plan_creation(caller, attached_deposit, &token_symbol) {
            Err(e) => {
                return Err(e);
            },
            Ok(_) => {},
        }
        if !funded {
            return Err(TokenError::CollateralMoveFailed);
        }
        let mut social_token = SocialToken::new(caller.clone(), token_symbol.clone());
        social_token.collateral_amount = INITIAL_RESERVE;
        social_token.supply = INITIAL_SUPPLY;
        proof {
            assert forall|symbol: Seq<char>| #[trigger]
                holdings(self.balances(), symbol) <= supply_of(
                    with_token(self.tokens(), social_token@),
                    symbol,
                ) by {
                lemma_with_token_lookup(self.tokens(), social_token@, symbol);
            }
        }
        self.set_social_token(social_token);
        self.record_creator(caller, &token_symbol);
        self.account_storage_usage = entry_storage_usage;
        Ok(())
    }

    /// Where the curve prices a mint of `token_symbol` against
    /// `collateral_amount` units of collateral. `NotFound` where no such
    /// token is recorded, `BalanceOverflow` where the reserve would exceed a
    /// `u128`.
    pub fn mint_pricing(&self, token_symbol: &String, collateral_amount: u128) -> (point: Result<
        CurvePoint,
        TokenError,
    >)
        requires
            self.wf(),
        ensures
            point == match token_of(self.tokens(), token_symbol@) {
                None => Err::<CurvePoint, TokenError>(TokenError::NotFound),
                Some(token) => if token.collateral_amount + collateral_amount > u128::MAX {
                    Err::<CurvePoint, TokenError>(TokenError::BalanceOverflow)
                } else {
                    Ok::<CurvePoint, TokenError>(mint_point(token, collateral_amount))
                },
            },
    {
        match self.find_token_place(token_symbol) {
            None => Err(TokenError::NotFound),
            Some(i) => match self.social_tokens[i].collateral_amount.checked_add(
                collateral_amount,
            ) {
                None => Err(TokenError::BalanceOverflow),
                Some(reserve) => Ok(
                    CurvePoint {
                        supply: self.social_tokens[i].supply,
                        reserve,
                        ratio: MINT_RESERVE_RATIO,
                        amount: collateral_amount,
                    },
                ),
            },
        }
    }

    /// Where the curve prices a burn of `token_amount` tokens of
    /// `token_symbol`: at the supply that is left once the tokens are gone.
    /// `NotFound` where no such token is recorded, `InsufficientBalance`
    /// where the supply is below the amount.
    pub fn burn_pricing(&self, token_symbol: &String, token_amount: u128) -> (point: Result<
        CurvePoint,
        TokenError,
    >)
        requires
            self.wf(),
        ensures
            point == match token_of(self.tokens(), token_symbol@) {
                None => Err::<CurvePoint, TokenError>(TokenError::NotFound),
                Some(token) => if token.supply < token_amount {
                    Err::<CurvePoint, TokenError>(TokenError::InsufficientBalance)
                } else {
                    Ok::<CurvePoint, TokenError>(burn_point(token, token_amount))
                },
            },
    {
        match self.find_token_place(token_symbol) {
            None => Err(TokenError::NotFound),
            Some(i) => match self.social_tokens[i].supply.checked_sub(token_amount) {
                None => Err(TokenError::InsufficientBalance),
                Some(supply) => Ok(
                    CurvePoint {
                        supply,
                        reserve: self.social_tokens[i].collateral_amount,
                        ratio: MINT_RESERVE_RATIO,
                        amount: token_amount,
                    },
                ),
            },
        }
    }

    /// Mints tokens of `token_symbol` for `caller` against
    /// `collateral_amount` units of collateral. `fractional` is the value of
    /// the curve's power formula, rounded up, at the point that
    /// `mint_pricing` names: the token's supply, its reserve raised by the
    /// collateral, the minting ratio and the collateral.
    ///
    /// Fails with `NotFound` where no such token is recorded, with
    /// `BalanceOverflow` where reserve, supply or balance would exceed a
    /// `u128`, and with `AccountNotRegistered` where the caller has no entry
    /// under the symbol. A mint that fails changes nothing.
    pub fn continuous_mint(
        &mut self,
        caller: &String,
        collateral_amount: u128,
        token_symbol: &String,
        fractional: u128,
    ) -> (done: Result<(), TokenError>)
        requires
            old(self).wf(),
        ensures
            final(self).wf(),
            final(self).same_settings(old(self)),
            match done {
                Ok(()) => mint_spec(
                    old(self).tokens(),
                    old(self).balances(),
                    caller@,
                    token_symbol@,
                    collateral_amount,
                    fractional,
                ) == Ok::<(Seq<TokenView>, Seq<EntryView>), TokenError>(
                    (final(self).tokens(), final(self).balances()),
                ),
                Err(e) => mint_spec(
                    old(self).tokens(),
                    old(self).balances(),
                    caller@,
                    token_symbol@,
                    collateral_amount,
                    fractional,
                ) == Err::<(Seq<TokenView>, Seq<EntryView>), TokenError>(e) && final(self).unchanged(old(self)),
            },
    {
        let i = match self.find_token(token_symbol) {
            Some(i) => i,
            None => {
                return Err(TokenError::NotFound);
            },
        };
        proof {
            lemma_token_index_unique(self.tokens(), i as int);
        }
        let reserve = match self.social_tokens[i].collateral_amount.checked_add(
            collateral_amount,
        ) {
            Some(reserve) => reserve,
            None => {
                return Err(TokenError::BalanceOverflow);
            },
        };
        let tokens_bought = match purchase_return(
            self.social_tokens[i].supply,
            reserve,
            MINT_RESERVE_RATIO,
            collateral_amount,
            fractional,
        ) {
            Ok(bought) => bought,
            Err(e) => {
                return Err(e);
            },
        };
        let supply = match self.social_tokens[i].supply.checked_add(tokens_bought) {
            Some(supply) => supply,
            None => {
                return Err(TokenError::BalanceOverflow);
            },
        };
        match self.st_to_accounts.deposit(token_symbol, caller, tokens_bought) {
            Ok(()) => {},
            Err(e) => {
                return Err(e);
            },
        }
        self.social_tokens[i].collateral_amount = reserve;
        self.social_tokens[i].supply = supply;
        proof {
            let minted = TokenView {
                collateral_amount: reserve,
                supply,
                ..old(self).tokens()[i as int]
            };
            assert(self.tokens() =~= with_token(old(self).tokens(), minted));
            assert forall|symbol: Seq<char>| #[trigger]
                holdings(self.balances(), symbol) <= supply_of(self.tokens(), symbol) by {
                lemma_mint_conserves(
                    old(self).tokens(),
                    old(self).balances(),
                    caller@,
                    token_symbol@,
                    collateral_amount,
                    fractional,
                    symbol,
                );
            }
            lemma_with_token_lookup(old(self).tokens(), minted, token_symbol@);
        }
        Ok(())
    }

    /// Burns `token_amount` tokens of `token_symbol` that `caller` holds.
    /// The tokens leave the supply first, and the curve prices them at the
    /// supply so lowered: `fractional` is the value of the curve's power
    /// formula, rounded up, at the point that `burn_pricing` names: that
    /// lowered supply, the token's reserve, the minting ratio and the
    /// amount.
    ///
    /// Fails with `NotFound` where no such token is recorded, with
    /// `InsufficientBalance` where supply, reserve or the caller's balance
    /// would drop below zero, and with `AccountNotRegistered` where the
    /// caller has no entry under the symbol. A burn that fails changes
    /// nothing.
    pub fn continuous_burn(
        &mut self,
        caller: &String,
        token_amount: u128,
        token_symbol: &String,
        fractional: u128,
    ) -> (done: Result<(), TokenError>)
        requires
            old(self).wf(),
        ensures
            final(self).wf(),
            final(self).same_settings(old(self)),
            match done {
                Ok(()) => burn_spec(
                    old(self).tokens(),
                    old(self).balances(),
                    caller@,
                    token_symbol@,
                    token_amount,
                    fractional,
                ) == Ok::<(Seq<TokenView>, Seq<EntryView>), TokenError>(
                    (final(self).tokens(), final(self).balances()),
                ),
                Err(e) => burn_spec(
                    old(self).tokens(),
                    old(self).balances(),
                    caller@,
                    token_symbol@,
                    token_amount,
                    fractional,
                ) == Err::<(Seq<TokenView>, Seq<EntryView>), TokenError>(e) && final(self).unchanged(old(self)),
            },
    {
        let i = match self.find_token(token_symbol) {
            Some(i) => i,
            None => {
                return Err(TokenError::NotFound);
            },
        };
        proof {
            lemma_token_index_unique(self.tokens(), i as int);
        }
        let supply = match self.social_tokens[i].supply.checked_sub(token_amount) {
            Some(supply) => supply,
            None => {
                return Err(TokenError::InsufficientBalance);
            },
        };
        let collateral_return = match sale_return(
            supply,
            self.social_tokens[i].collateral_amount,
            MINT_RESERVE_RATIO,
            token_amount,
            fractional,
        ) {
            Ok(released) => released,
            Err(e) => {
                return Err(e);
            },
        };
        let reserve = match self.social_tokens[i].collateral_amount.checked_sub(
            collateral_return,
        ) {
            Some(reserve) => reserve,
            None => {
                return Err(TokenError::InsufficientBalance);
            },
        };
        match self.st_to_accounts.withdraw(token_symbol, caller, token_amount) {
            Ok(()) => {},
            Err(e) => {
                return Err(e);
            },
        }
        self.social_tokens[i].collateral_amount = reserve;
        self.social_tokens[i].supply = supply;
        proof {
            let burned = TokenView {
                collateral_amount: reserve,
                supply,
                ..old(self).tokens()[i as int]
            };
            assert(self.tokens() =~= with_token(old(self).tokens(), burned));
            assert forall|symbol: Seq<char>| #[trigger]
                holdings(self.balances(), symbol) <= supply_of(self.tokens(), symbol) by {
                lemma_burn_conserves(
                    old(self).tokens(),
                    old(self).balances(),
                    caller@,
                    token_symbol@,
                    token_amount,
                    fractional,
                    symbol,
                );
            }
            lemma_with_token_lookup(old(self).tokens(), burned, token_symbol@);
        }
        Ok(())
    }
    /// The movement of collateral that a mint asks for: `collateral_amount`
    /// units from the caller into the token's vault. `NotFound` where no
    /// such token is recorded.
    pub fn mint_collateral_move(
        &self,
        caller: &String,
        token_symbol: &String,
        collateral_amount: u128,
    ) -> (request: Result<CollateralMove, TokenError>)
        requires
            self.wf(),
        ensures
            match token_of(self.tokens(), token_symbol@) {
                Some(token) => request matches Ok(m) && m.from@ == caller@ && m.to@
                    == token.collateral_account_id && m.amount == collateral_amount,
                None => request matches Err(e) && e == TokenError::NotFound,
            },
    {
        match self.st_collateral_account_id(token_symbol) {
            Ok(vault) => Ok(
                CollateralMove { from: caller.clone(), to: vault, amount: collateral_amount },
            ),
            Err(e) => Err(e),
        }
    }

    /// The movement of collateral that a burn asks for: `burn_amount` units
    /// from the token's vault to the caller. `NotFound` where no such token
    /// is recorded.
    pub fn burn_collateral_move(
        &self,
        caller: &String,
        token_symbol: &String,
        burn_amount: u128,
    ) -> (request: Result<CollateralMove, TokenError>)
        requires
            self.wf(),
        ensures
            match token_of(self.tokens(), token_symbol@) {
                Some(token) => request matches Ok(m) && m.from@ == token.collateral_account_id
                    && m.to@ == caller@ && m.amount == burn_amount,
                None => request matches Err(e) && e == TokenError::NotFound,
            },
    {
        match self.st_collateral_account_id(token_symbol) {
            Ok(vault) => Ok(CollateralMove { from: vault, to: caller.clone(), amount: burn_amount }),
            Err(e) => Err(e),
        }
    }

    /// Mints tokens of `token_symbol` for `caller`, once the movement of the
    /// collateral into the vault has been attempted: `collateral_moved` says
    /// whether the collateral ledger made it. Fails with `NotFound` where no
    /// such token is recorded and with `CollateralMoveFailed` where the
    /// collateral did not move; otherwise as `continuous_mint` does. A mint
    /// that fails changes nothing.
    pub fn st_mint(
        &mut self,
        caller: &String,
        token_symbol: String,
        collateral_amount: u128,
        collateral_moved: bool,
        fractional: u128,
    ) -> (done: Result<(), TokenError>)
        requires
            old(self).wf(),
        ensures
            final(self).wf(),
            final(self).same_settings(old(self)),
            match done {
                Ok(()) => st_mint_spec(
                    old(self).tokens(),
                    old(self).balances(),
                    caller@,
                    token_symbol@,
                    collateral_amount,
                    collateral_moved,
                    fractional,
                ) == Ok::<(Seq<TokenView>, Seq<EntryView>), TokenError>(
                    (final(self).tokens(), final(self).balances()),
                ),
                Err(e) => st_mint_spec(
                    old(self).tokens(),
                    old(self).balances(),
                    caller@,
                    token_symbol@,
                    collateral_amount,
                    collateral_moved,
                    fractional,
                ) == Err::<(Seq<TokenView>, Seq<EntryView>), TokenError>(e) && final(self).unchanged(
                    old(self),
                ),
            },
    {
        if self.find_token(&token_symbol).is_none() {
            return Err(TokenError::NotFound);
        }
        if !collateral_moved {
            return Err(TokenError::CollateralMoveFailed);
        }
        self.continuous_mint(caller, collateral_amount, &token_symbol, fractional)
    }

    /// Burns `burn_amount` tokens of `token_symbol` that `caller` holds,
    /// once the movement of the collateral out of the vault has been
    /// attempted: `collateral_moved` says whether the collateral ledger made
    /// it. Fails with `NotFound` where no such token is recorded and with
    /// `CollateralMoveFailed` where the collateral did not move; otherwise as
    /// `continuous_burn` does. A burn that fails changes nothing.
    pub fn st_burn(
        &mut self,
        caller: &String,
        token_symbol: String,
        burn_amount: u128,
        collateral_moved: bool,
        fractional: u128,
    ) -> (done: Result<(), TokenError>)
        requires
            old(self).wf(),
        ensures
            final(self).wf(),
            final(self).same_settings(old(self)),
            match done {
                Ok(()) => st_burn_spec(
                    old(self).tokens(),
                    old(self).balances(),
                    caller@,
                    token_symbol@,
                    burn_amount,
                    collateral_moved,
                    fractional,
                ) == Ok::<(Seq<TokenView>, Seq<EntryView>), TokenError>(
                    (final(self).tokens(), final(self).balances()),
                ),
                Err(e) => st_burn_spec(
                    old(self).tokens(),
                    old(self).balances(),
                    caller@,
                    token_symbol@,
                    burn_amount,
                    collateral_moved,
                    fractional,
                ) == Err::<(Seq<TokenView>, Seq<EntryView>), TokenError>(e) && final(self).unchanged(
                    old(self),
                ),
            },
    {
        if self.find_token(&token_symbol).is_none() {
            return Err(TokenError::NotFound);
        }
        if !collateral_moved {
            return Err(TokenError::CollateralMoveFailed);
        }
        self.continuous_burn(caller, burn_amount, &token_symbol, fractional)
    }
    /// The contract that holds exactly the records and entries given, or
    /// `None` where they break the contract's invariant: two records under
    /// one symbol, two last tokens of one creator, two entries for one
    /// account under one symbol, or more units held under a symbol than are
    /// in circulation.
    pub fn restore(
        owner_id: String,
        social_tokens: Vec<SocialToken>,
        social_tokens_by_creator_id: Vec<CreatorToken>,
        entries: Vec<BalanceEntry>,
        account_storage_usage: u64,
        st_metadata: SocialTokensMetadata,
    ) -> (contract: Option<SocialTokens>)
        ensures
            match contract {
                Some(c) => {
                    &&& c.wf()
                    &&& c.owner_id == owner_id
                    &&& c.social_tokens == social_tokens
                    &&& c.social_tokens_by_creator_id == social_tokens_by_creator_id
                    &&& c.balances() == entry_views(entries@)
                    &&& c.account_storage_usage == account_storage_usage
                    &&& c.st_metadata == st_metadata
                },
                None => !(distinct_symbols(token_views(social_tokens@)) && distinct(
                    keys_of(social_tokens_by_creator_id@),
                ) && crate::ledger::distinct_keys(entry_views(entries@)) && backed(
                    token_views(social_tokens@),
                    entry_views(entries@),
                )),
            },
    {
        let ghost tokens = token_views(social_tokens@);
        let ghost views = entry_views(entries@);
        if !keys_distinct(&social_tokens_by_creator_id) {
            return None;
        }
        let mut i: usize = 0;
        while i < social_tokens.len()
            invariant
                i <= social_tokens.len(),
                tokens == token_views(social_tokens@),
                forall|a: int, b: int|
                    0 <= a < i && 0 <= b < tokens.len() && a != b ==> (#[trigger] tokens[a]).symbol
                        != (#[trigger] tokens[b]).symbol,
            decreases social_tokens.len() - i,
        {
            let mut j: usize = i + 1;
            while j < social_tokens.len()
                invariant
                    i < j <= social_tokens.len(),
                    tokens == token_views(social_tokens@),
                    forall|b: int| i < b < j ==> tokens[i as int].symbol != (#[trigger] tokens[b]).symbol,
                decreases social_tokens.len() - j,
            {
                if social_tokens[i].symbol == social_tokens[j].symbol {
                    assert(tokens[i as int].symbol == tokens[j as int].symbol);
                    return None;
                }
                j += 1;
            }
            assert forall|a: int, b: int|
                0 <= a < i + 1 && 0 <= b < tokens.len() && a != b implies (#[trigger] tokens[a]).symbol
                != (#[trigger] tokens[b]).symbol by {
                if a == i && b < i {
                    assert(tokens[b].symbol != tokens[a].symbol);
                }
            }
            i += 1;
        }
        let mut contract = SocialTokens {
            owner_id,
            social_tokens,
            social_tokens_by_creator_id,
            st_to_accounts: Ledger::new(),
            account_storage_usage,
            st_metadata,
        };
        let mut k: usize = 0;
        while k < entries.len()
            invariant
                k <= entries.len(),
                views == entry_views(entries@),
                tokens == contract.tokens(),
                distinct_symbols(tokens),
                contract.social_tokens == social_tokens,
                contract.social_tokens_by_creator_id == social_tokens_by_creator_id,
                distinct(keys_of(social_tokens_by_creator_id@)),
                contract.owner_id == owner_id,
                contract.account_storage_usage == account_storage_usage,
                contract.st_metadata == st_metadata,
                forall|a: int|
                    0 <= a < k ==> holdings(views, (#[trigger] views[a]).symbol) <= supply_of(
                        tokens,
                        views[a].symbol,
                    ),
            decreases entries.len() - k,
        {
            let supply = match contract.find_token_place(&entries[k].symbol) {
                Some(place) => contract.social_tokens[place].supply,
                None => 0,
            };
            if !holdings_within(&entries, &entries[k].symbol, supply) {
                assert(holdings(views, views[k as int].symbol) > supply_of(
                    tokens,
                    views[k as int].symbol,
                ));
                return None;
            }
            k += 1;
        }
        match Ledger::from_entries(entries) {
            None => None,
            Some(ledger) => {
                contract.st_to_accounts = ledger;
                proof {
                    assert forall|symbol: Seq<char>| #[trigger]
                        holdings(views, symbol) <= supply_of(tokens, symbol) by {
                        if exists|a: int| 0 <= a < views.len() && (#[trigger] views[a]).symbol == symbol {
                            let a = choose|a: int|
                                0 <= a < views.len() && (#[trigger] views[a]).symbol == symbol;
                            assert(holdings(views, views[a].symbol) <= supply_of(
                                tokens,
                                views[a].symbol,
                            ));
                        } else {
                            lemma_holdings_of_unused_symbol(views, symbol);
                        }
                    }
                }
                Some(contract)
            },
        }
    }
}

impl SocialTokensMetadataProvider for SocialTokens {
    open spec fn metadata(&self) -> SocialTokensMetadata {
        self.st_metadata
    }

    fn st_metadata(&self) -> (copy: SocialTokensMetadata) {
        self.st_metadata.clone()
    }
}

impl BondingCurveInterface for SocialTokens {
    fn calculate_purchase_return(
        &mut self,
        token_supply: u128,
        reserve_balance: u128,
        reserve_ratio: u32,
        deposit_amount: u128,
        fractional: u128,
    ) -> (bought: Result<u128, TokenError>) {
        purchase_return(token_supply, reserve_balance, reserve_ratio, deposit_amount, fractional)
    }

    fn calculate_sale_return(
        &mut self,
        token_supply: u128,
        reserve_balance: u128,
        reserve_ratio: u32,
        sell_amount: u128,
        fractional: u128,
    ) -> (released: Result<u128, TokenError>) {
        sale_return(token_supply, reserve_balance, reserve_ratio, sell_amount, fractional)
    }
}

} // verus!
