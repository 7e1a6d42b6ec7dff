use vstd::prelude::*;

verus! {

/// The account under which every collateral vault is created.
pub const ST_ACCOUNT_ID: &'static str = "st.momentize.testnet";

/// The supply a token starts with.
pub const INITIAL_SUPPLY: u128 = 100;

/// The reserve a token starts with.
pub const INITIAL_RESERVE: u128 = 1;

/// A token record as the contracts see it.
pub struct TokenView {
    pub creator_id: Seq<char>,
    pub collateral_account_id: Seq<char>,
    pub symbol: Seq<char>,
    pub collateral_amount: u128,
    pub supply: u128,
}

/// The identifier of the collateral vault of the token `symbol`: the symbol,
/// a dot, and the account that owns the vaults. A vault belongs to one symbol
/// and to no other.
pub open spec fn collateral_account_of(symbol: Seq<char>) -> Seq<char> {
    symbol + "."@ + ST_ACCOUNT_ID@
}

/// The record of one social token: who created it, the vault that holds its
/// collateral, the collateral held (its reserve) and the units in
/// circulation (its supply).
pub struct SocialToken {
    pub creator_id: String,
    pub collateral_account_id: String,
    pub symbol: String,
    pub collateral_amount: u128,
    pub supply: u128,
}

impl View for SocialToken {
    type V = TokenView;

    open spec fn view(&self) -> TokenView {
        TokenView {
            creator_id: self.creator_id@,
            collateral_account_id: self.collateral_account_id@,
            symbol: self.symbol@,
            collateral_amount: self.collateral_amount,
            supply: self.supply,
        }
    }
}

/// The identifier of the collateral vault of the token `symbol`.
pub fn collateral_account_id(symbol: &String) -> (id: String)
    ensures
        id@ == collateral_account_of(symbol@),
{
    symbol.clone().concat(".").concat(ST_ACCOUNT_ID)
}

impl SocialToken {
    /// The record of a token that `owner_id` creates under `symbol`, with
    /// its vault derived from the symbol and with neither reserve nor supply
    /// yet.
    pub fn new(owner_id: String, symbol: String) -> (token: SocialToken)
        ensures
            token@ == (TokenView {
                creator_id: owner_id@,
                collateral_account_id: collateral_account_of(symbol@),
                symbol: symbol@,
                collateral_amount: 0,
                supply: 0,
            }),
    {
        let vault = collateral_account_id(&symbol);
        SocialToken {
            creator_id: owner_id,
            collateral_account_id: vault,
            symbol,
            collateral_amount: 0,
            supply: 0,
        }
    }
}

} // verus!
