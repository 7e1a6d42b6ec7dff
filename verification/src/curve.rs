use vstd::prelude::*;
use crate::error::TokenError;
use vstd::arithmetic::div_mod::{lemma_div_is_ordered, lemma_fundamental_div_mod};
use vstd::arithmetic::mul::lemma_mul_inequality;

verus! {

/// Reserve ratios are held in parts per million.
pub const RATIO_SCALE: u32 = 1_000_000;

/// The largest reserve ratio, one: the curve is then linear.
pub const MAX_RESERVE_RATIO: u32 = 1_000_000;

/// The reserve ratio at which tokens are minted and burned: one tenth.
pub const MINT_RESERVE_RATIO: u32 = 100_000;

/// Tokens minted for `deposit` units of collateral.
///
/// `fractional` stands for the value of
/// `supply * ((1 + deposit / reserve) ^ ratio - 1)`, rounded up to the next
/// whole token; it is what the curve yields when the ratio is below one.
pub open spec fn purchase_return_spec(
    supply: u128,
    reserve: u128,
    ratio: u32,
    deposit: u128,
    fractional: u128,
) -> Result<u128, TokenError> {
    if ratio > MAX_RESERVE_RATIO {
        Err(TokenError::InvalidCurveParameters)
    } else if deposit == 0 {
        Ok(0u128)
    } else if ratio == MAX_RESERVE_RATIO {
        if reserve == 0 {
            Err(TokenError::InvalidCurveParameters)
        } else if supply * deposit > u128::MAX {
            Err(TokenError::BalanceOverflow)
        } else {
            Ok(((supply * deposit) / (reserve as int)) as u128)
        }
    } else {
        Ok(fractional)
    }
}

/// Collateral released for `sell_amount` tokens burned.
///
/// `fractional` stands for the value of
/// `reserve * (1 - (1 - sell_amount / supply) ^ (1 / ratio))`, rounded up and
/// taken as an absolute value; it is what the curve yields when the ratio is
/// below one and the sale is partial.
pub open spec fn sale_return_spec(
    supply: u128,
    reserve: u128,
    ratio: u32,
    sell_amount: u128,
    fractional: u128,
) -> Result<u128, TokenError> {
    if ratio > MAX_RESERVE_RATIO {
        Err(TokenError::InvalidCurveParameters)
    } else if sell_amount == 0 {
        Ok(0u128)
    } else if sell_amount == supply {
        Ok(reserve)
    } else if ratio == MAX_RESERVE_RATIO {
        if supply == 0 {
            Err(TokenError::InvalidCurveParameters)
        } else if reserve * sell_amount > u128::MAX {
            Err(TokenError::BalanceOverflow)
        } else {
            Ok(((reserve * sell_amount) / (supply as int)) as u128)
        }
    } else {
        Ok(fractional)
    }
}

/// Tokens minted for a deposit of collateral at the given supply, reserve
/// and reserve ratio (in parts per million). A ratio above one is refused
/// before anything is computed; a deposit of nothing buys nothing; at a
/// ratio of one the price is linear and the quotient is truncated. Below one
/// the result is `fractional`, the rounded-up value of the power formula that
/// the caller computed for these very arguments.
pub fn purchase_return(
    supply: u128,
    reserve: u128,
    ratio: u32,
    deposit: u128,
    fractional: u128,
) -> (bought: Result<u128, TokenError>)
    ensures
        bought == purchase_return_spec(supply, reserve, ratio, deposit, fractional),
{
    if ratio > MAX_RESERVE_RATIO {
        return Err(TokenError::InvalidCurveParameters);
    }
    if deposit == 0 {
        return Ok(0);
    }
    if ratio == MAX_RESERVE_RATIO {
        if reserve == 0 {
            return Err(TokenError::InvalidCurveParameters);
        }
        return match supply.checked_mul(deposit) {
            Some(product) => Ok(product / reserve),
            None => Err(TokenError::BalanceOverflow),
        };
    }
    Ok(fractional)
}

/// Collateral released for tokens burned at the given supply, reserve and
/// reserve ratio (in parts per million). A ratio above one is refused before
/// anything is computed; selling nothing releases nothing; selling the whole
/// supply releases the whole reserve, whatever the ratio; at a ratio of one
/// the price is linear and the quotient is truncated. Otherwise the result
/// is `fractional`, the rounded-up value of the power formula that the
/// caller computed for these very arguments.
pub fn sale_return(
    supply: u128,
    reserve: u128,
    ratio: u32,
    sell_amount: u128,
    fractional: u128,
) -> (released: Result<u128, TokenError>)
    ensures
        released == sale_return_spec(supply, reserve, ratio, sell_amount, fractional),
{
    if ratio > MAX_RESERVE_RATIO {
        return Err(TokenError::InvalidCurveParameters);
    }
    if sell_amount == 0 {
        return Ok(0);
    }
    if sell_amount == supply {
        return Ok(reserve);
    }
    if ratio == MAX_RESERVE_RATIO {
        if supply == 0 {
            return Err(TokenError::InvalidCurveParameters);
        }
        return match reserve.checked_mul(sell_amount) {
            Some(product) => Ok(product / supply),
            None => Err(TokenError::BalanceOverflow),
        };
    }
    Ok(fractional)
}

/// The pricing engine as a holder of tokens offers it. Neither method
/// changes the holder.
pub trait BondingCurveInterface: Sized {
    /// Tokens minted for a deposit; see `purchase_return`.
    fn calculate_purchase_return(
        &mut self,
        token_supply: u128,
        reserve_balance: u128,
        reserve_ratio: u32,
        deposit_amount: u128,
        fractional: u128,
    ) -> (bought: Result<u128, TokenError>)
        ensures
            *final(self) == *old(self),
            bought == purchase_return_spec(
                token_supply,
                reserve_balance,
                reserve_ratio,
                deposit_amount,
                fractional,
            ),
    ;

    /// Collateral released for tokens burned; see `sale_return`.
    fn calculate_sale_return(
        &mut self,
        token_supply: u128,
        reserve_balance: u128,
        reserve_ratio: u32,
        sell_amount: u128,
        fractional: u128,
    ) -> (released: Result<u128, TokenError>)
        ensures
            *final(self) == *old(self),
            released == sale_return_spec(
                token_supply,
                reserve_balance,
                reserve_ratio,
                sell_amount,
                fractional,
            ),
    ;
}

/// Buying or selling nothing yields nothing, at any supply and reserve and
/// at any ratio of at most one.
pub proof fn lemma_nothing_for_nothing(supply: u128, reserve: u128, ratio: u32, fractional: u128)
    requires
        ratio <= MAX_RESERVE_RATIO,
    ensures
        purchase_return_spec(supply, reserve, ratio, 0, fractional) == Ok::<u128, TokenError>(0),
        sale_return_spec(supply, reserve, ratio, 0, fractional) == Ok::<u128, TokenError>(0),
{
}

/// Selling the whole of a supply that is not empty releases the whole
/// reserve, exactly, at any ratio of at most one.
pub proof fn lemma_full_sale_releases_reserve(
    supply: u128,
    reserve: u128,
    ratio: u32,
    fractional: u128,
)
    requires
        ratio <= MAX_RESERVE_RATIO,
        supply > 0,
    ensures
        sale_return_spec(supply, reserve, ratio, supply, fractional) == Ok::<u128, TokenError>(
            reserve,
        ),
{
}

/// A larger deposit never buys fewer tokens: where two purchases at the same
/// supply, reserve and ratio both succeed, and the fractional values handed
/// in are ordered as the deposits are, the results are ordered too.
pub proof fn lemma_purchase_monotone(
    supply: u128,
    reserve: u128,
    ratio: u32,
    smaller: u128,
    larger: u128,
    fractional_smaller: u128,
    fractional_larger: u128,
)
    requires
        ratio <= MAX_RESERVE_RATIO,
        smaller <= larger,
        fractional_smaller <= fractional_larger,
    ensures
        purchase_return_spec(supply, reserve, ratio, smaller, fractional_smaller) is Ok
            && purchase_return_spec(supply, reserve, ratio, larger, fractional_larger) is Ok
            ==> purchase_return_spec(supply, reserve, ratio, smaller, fractional_smaller)->Ok_0
            <= purchase_return_spec(supply, reserve, ratio, larger, fractional_larger)->Ok_0,
{
    if ratio == MAX_RESERVE_RATIO && smaller != 0 && reserve != 0 && supply * larger <= u128::MAX {
        lemma_mul_inequality(smaller as int, larger as int, supply as int);
        assert(supply * smaller == smaller * supply) by (nonlinear_arith);
        assert(supply * larger == larger * supply) by (nonlinear_arith);
        lemma_div_is_ordered(supply * smaller, supply * larger, reserve as int);
    }
}

/// On the linear curve a purchase followed at once by the sale of the tokens
/// just bought never returns more collateral than was deposited.
pub proof fn lemma_linear_round_trip(
    supply: u128,
    reserve: u128,
    deposit: u128,
    bought: u128,
    released: u128,
    fractional: u128,
)
    requires
        purchase_return_spec(supply, reserve, MAX_RESERVE_RATIO, deposit, fractional) == Ok::<
            u128,
            TokenError,
        >(bought),
        supply + bought <= u128::MAX,
        reserve + deposit <= u128::MAX,
        sale_return_spec(
            (supply + bought) as u128,
            (reserve + deposit) as u128,
            MAX_RESERVE_RATIO,
            bought,
            fractional,
        ) == Ok::<u128, TokenError>(released),
    ensures
        released <= deposit,
{
    if bought != 0 && supply != 0 {
        let r = reserve as int;
        let s = supply as int;
        let d = deposit as int;
        let t = bought as int;
        lemma_fundamental_div_mod(s * d, r);
        assert(r * t <= s * d);
        assert((r + d) * t <= d * (s + t)) by (nonlinear_arith)
            requires
                r * t <= s * d,
        ;
        lemma_div_is_ordered((r + d) * t, d * (s + t), s + t);
        assert((d * (s + t)) / (s + t) == d) by (nonlinear_arith)
            requires
                s + t > 0,
        ;
    }
}

} // verus!
