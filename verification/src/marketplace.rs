use vstd::prelude::*;
use crate::account::{is_valid_account_id, valid_account_id};
use crate::guard::{assert_one_yocto, ONE_YOCTO};
use crate::keyed::{
    distinct, find, keys_distinct, keys_of, lemma_position_unique, lemma_push_distinct,
    text_views, texts_distinct,
};
use crate::ledger::{
    balance_of, distinct_keys, entry_views, with_balance, without_entry, BalanceEntry, EntryView,
    Ledger,
};
use crate::nft::{members, TokenSet};

verus! {

/// What the storage of one sale costs.
pub const STORAGE_PER_SALE: u128 = 10_000_000_000_000_000_000_000;

/// What stands between the account of a token contract and the symbol of a
/// social token in the identifier of a supported token.
pub const DELIMETER: &'static str = "||";

/// The currency that is supported from the start.
pub const NATIVE_TOKEN: &'static str = "near";

/// Why the marketplace refused an operation.
#[derive(Clone, Copy, Debug, PartialEq, Eq, Structural)]
pub enum MarketError {
    /// The caller is not the owner of the marketplace, or the one-unit
    /// payment that authorises the call is missing.
    Unauthorized,
    /// The identifier of the token is not a valid account identifier.
    InvalidAccountId,
    /// The deposit does not pay for the storage of one sale.
    DepositTooSmall,
    /// A deposit would exceed what a `u128` holds.
    Overflow,
    /// The account's sales take more storage than it has paid for.
    SalesExceedDeposit,
}

/// The key under which the storage deposits are kept: the empty symbol.
pub open spec fn deposits_key() -> Seq<char> {
    Seq::empty()
}

/// The marketplace: who owns it, which tokens it accepts in payment, the
/// sales of each account, and what each account has paid for storage.
pub struct Marketplace {
    /// The account that owns the marketplace.
    pub owner_id: String,
    /// For each account, the sales it has posted.
    pub by_owner_id: Vec<TokenSet>,
    /// The tokens accepted in payment, each once, in the order in which
    /// they were added.
    pub ft_token_ids: Vec<String>,
    /// For each account, what it has paid for storage.
    pub storage_deposits: Ledger,
}

impl Marketplace {
    /// The marketplace's invariant: each supported token, each owner of
    /// sales and each depositor is kept once.
    pub open spec fn wf(&self) -> bool {
        &&& distinct(text_views(self.ft_token_ids@))
        &&& distinct(keys_of(self.by_owner_id@))
        &&& self.storage_deposits.wf()
    }

    /// Whether the token is accepted in payment.
    pub open spec fn supports(&self, token: Seq<char>) -> bool {
        text_views(self.ft_token_ids@).contains(token)
    }

    /// What the account has paid for storage: nothing, where no deposit is
    /// kept.
    pub open spec fn paid(&self, account: Seq<char>) -> u128 {
        match balance_of(self.storage_deposits@, deposits_key(), account) {
            Some(deposit) => deposit,
            None => 0,
        }
    }

    /// What the storage of the account's sales costs.
    pub open spec fn owed(&self, account: Seq<char>) -> int {
        members(self.by_owner_id@, account).len() * STORAGE_PER_SALE
    }

    /// The marketplace that holds exactly what is given, or `None` where
    /// that breaks the marketplace's invariant: a supported token, an owner
    /// of sales or a depositor that is kept twice.
    pub fn restore(
        owner_id: String,
        by_owner_id: Vec<TokenSet>,
        ft_token_ids: Vec<String>,
        storage_deposits: Vec<BalanceEntry>,
    ) -> (market: Option<Marketplace>)
        ensures
            match market {
                Some(m) => m.wf() && m.owner_id == owner_id && m.by_owner_id == by_owner_id
                    && m.ft_token_ids == ft_token_ids && m.storage_deposits@ == entry_views(
                    storage_deposits@,
                ),
                None => !(distinct(text_views(ft_token_ids@)) && distinct(keys_of(by_owner_id@))
                    && distinct_keys(entry_views(storage_deposits@))),
            },
    {
        if !texts_distinct(&ft_token_ids) || !keys_distinct(&by_owner_id) {
            return None;
        }
        match Ledger::from_entries(storage_deposits) {
            None => None,
            Some(deposits) => Some(
                Marketplace { owner_id, by_owner_id, ft_token_ids, storage_deposits: deposits },
            ),
        }
    }

    /// Adds `token` to the supported ones unless it is among them, and says
    /// whether it was added.
    fn support(&mut self, token: String) -> (added: bool)
        requires
            distinct(text_views(old(self).ft_token_ids@)),
        ensures
            distinct(text_views(final(self).ft_token_ids@)),
            added == !old(self).supports(token@),
            text_views(final(self).ft_token_ids@) == if added {
                text_views(old(self).ft_token_ids@).push(token@)
            } else {
                text_views(old(self).ft_token_ids@)
            },
            final(self).owner_id == old(self).owner_id,
            final(self).by_owner_id == old(self).by_owner_id,
            final(self).storage_deposits == old(self).storage_deposits,
    {
        let ghost before = text_views(self.ft_token_ids@);
        let mut i: usize = 0;
        while i < self.ft_token_ids.len()
            invariant
                i <= self.ft_token_ids.len(),
                before == text_views(self.ft_token_ids@),
                distinct(before),
                *self == *old(self),
                forall|j: int| 0 <= j < i ==> #[trigger] before[j] != token@,
            decreases self.ft_token_ids.len() - i,
        {
            if self.ft_token_ids[i] == token {
                assert(before[i as int] == token@);
                return false;
            }
            i += 1;
        }
        proof {
            lemma_push_distinct(before, token@);
        }
        self.ft_token_ids.push(token);
        assert(text_views(self.ft_token_ids@) =~= before.push(token@));
        true
    }

    /// A marketplace owned by `owner_id` that accepts the native currency
    /// and, after it, the tokens given, each once.
    pub fn new(owner_id: String, ft_token_ids: Option<Vec<String>>) -> (market: Marketplace)
        ensures
            market.wf(),
            market.owner_id == owner_id,
            market.by_owner_id@ == Seq::<TokenSet>::empty(),
            market.storage_deposits@ == Seq::<EntryView>::empty(),
            market.supports(NATIVE_TOKEN@),
            forall|token: Seq<char>| #[trigger]
                market.supports(token) <==> token == NATIVE_TOKEN@ || (ft_token_ids matches Some(
                    given,
                ) && text_views(given@).contains(token)),
    {
        let mut this = Marketplace {
            owner_id,
            by_owner_id: Vec::new(),
            ft_token_ids: Vec::new(),
            storage_deposits: Ledger::new(),
        };
        assert(text_views(this.ft_token_ids@) =~= Seq::<Seq<char>>::empty());
        assert(keys_of(this.by_owner_id@) =~= Seq::<Seq<char>>::empty());
        this.support(String::from_str(NATIVE_TOKEN));
        assert(text_views(this.ft_token_ids@)[0] == NATIVE_TOKEN@);
        match ft_token_ids {
            None => {
                assert forall|token: Seq<char>| #[trigger]
                    this.supports(token) implies token == NATIVE_TOKEN@ by {
                    let j = choose|j: int|
                        0 <= j < text_views(this.ft_token_ids@).len() && text_views(
                            this.ft_token_ids@,
                        )[j] == token;
                }
            },
            Some(given) => {
                let mut i: usize = 0;
                while i < given.len()
                    invariant
                        i <= given.len(),
                        this.wf(),
                        this.owner_id == owner_id,
                        this.by_owner_id@ == Seq::<TokenSet>::empty(),
                        this.storage_deposits@ == Seq::<EntryView>::empty(),
                        forall|token: Seq<char>| #[trigger]
                            this.supports(token) <==> token == NATIVE_TOKEN@ || text_views(
                                given@,
                            ).take(i as int).contains(token),
                    decreases given.len() - i,
                {
                    let ghost before = text_views(this.ft_token_ids@);
                    let ghost seen = text_views(given@).take(i as int);
                    assert(forall|t: Seq<char>| #[trigger]
                        before.contains(t) <==> t == NATIVE_TOKEN@ || seen.contains(t)) by {
                        assert(forall|t: Seq<char>| #[trigger]
                            this.supports(t) <==> t == NATIVE_TOKEN@ || seen.contains(t));
                        assert(forall|t: Seq<char>| this.supports(t) == before.contains(t));
                    }
                    let token = given[i].clone();
                    this.support(token);
                    proof {
                        let after = text_views(this.ft_token_ids@);
                        let next = text_views(given@).take(i + 1);
                        assert(next =~= seen.push(given@[i as int]@));
                        assert forall|t: Seq<char>| #[trigger]
                            this.supports(t) <==> t == NATIVE_TOKEN@ || next.contains(t) by {
                            if after.contains(t) {
                                let j = choose|j: int| 0 <= j < after.len() && after[j] == t;
                                if j < before.len() {
                                    assert(before[j] == t);
                                    assert(before.contains(t));
                                    if seen.contains(t) {
                                        let k = choose|k: int| 0 <= k < seen.len() && seen[k] == t;
                                        assert(next[k] == t);
                                    }
                                } else {
                                    assert(next[i as int] == t);
                                }
                            }
                            if t == NATIVE_TOKEN@ {
                                assert(before.contains(t));
                                let j = choose|j: int| 0 <= j < before.len() && before[j] == t;
                                assert(after[j] == t);
                            }
                            if next.contains(t) {
                                let k = choose|k: int| 0 <= k < next.len() && next[k] == t;
                                if k < i {
                                    assert(seen[k] == t);
                                    assert(seen.contains(t));
                                    assert(before.contains(t));
                                    let j = choose|j: int| 0 <= j < before.len() && before[j] == t;
                                    assert(after[j] == t);
                                } else {
                                    if before.contains(t) {
                                        let j = choose|j: int|
                                            0 <= j < before.len() && before[j] == t;
                                        assert(after[j] == t);
                                    } else {
                                        assert(after[before.len() as int] == t);
                                    }
                                }
                            }
                        }
                    }
                    i += 1;
                }
                assert(text_views(given@).take(i as int) =~= text_views(given@));
            },
        }
        this
    }

    /// The identifier under which a token is supported: the account of its
    /// contract, or that account, the delimiter and the symbol for a social
    /// token.
    pub open spec fn token_key(ft_or_st_token_id: Seq<char>, st_symbol: Option<Seq<char>>) -> Seq<
        char,
    > {
        match st_symbol {
            Some(symbol) => ft_or_st_token_id + DELIMETER@ + symbol,
            None => ft_or_st_token_id,
        }
    }

    /// Adds a token to those accepted in payment, and says whether it was
    /// added or was among them already. Only the owner may do so
    /// (`Unauthorized`). For a social token the identifier is the account of
    /// its contract, the delimiter and its symbol, and it must be a valid
    /// account identifier (`InvalidAccountId`).
    pub fn add_ft_or_st_token_ids(
        &mut self,
        predecessor_id: &String,
        ft_or_st_token_id: String,
        st_symbol: Option<String>,
    ) -> (added: Result<bool, MarketError>)
        requires
            old(self).wf(),
        ensures
            final(self).wf(),
            final(self).owner_id == old(self).owner_id,
            final(self).by_owner_id == old(self).by_owner_id,
            final(self).storage_deposits == old(self).storage_deposits,
            ({
                let key = Self::token_key(
                    ft_or_st_token_id@,
                    match st_symbol {
                        Some(symbol) => Some(symbol@),
                        None => None,
                    },
                );
                if predecessor_id@ != old(self).owner_id@ {
                    added == Err::<bool, MarketError>(MarketError::Unauthorized) && final(self).ft_token_ids == old(self).ft_token_ids
                } else if st_symbol is Some && !valid_account_id(key) {
                    added == Err::<bool, MarketError>(MarketError::InvalidAccountId) && final(self).ft_token_ids == old(self).ft_token_ids
                } else {
                    added == Ok::<bool, MarketError>(!old(self).supports(key)) && text_views(
                        final(self).ft_token_ids@,
                    ) == if old(self).supports(key) {
                        text_views(old(self).ft_token_ids@)
                    } else {
                        text_views(old(self).ft_token_ids@).push(key)
                    }
                }
            }),
    {
        if *predecessor_id != self.owner_id {
            return Err(MarketError::Unauthorized);
        }
        let key = match st_symbol {
            Some(symbol) => {
                let joined = ft_or_st_token_id.concat(DELIMETER).concat(symbol.as_str());
                if !is_valid_account_id(&joined) {
                    return Err(MarketError::InvalidAccountId);
                }
                joined
            },
            None => ft_or_st_token_id,
        };
        Ok(self.support(key))
    }

    /// Takes in a deposit for the storage of sales, for `account_id` or,
    /// where none is named, for the caller, and adds it to what the account
    /// has paid. The deposit must pay for one sale at least
    /// (`DepositTooSmall`), and the sum must stay within a `u128`
    /// (`Overflow`); else nothing changes.
    pub fn storage_deposit(
        &mut self,
        predecessor_id: &String,
        attached_deposit: u128,
        account_id: Option<String>,
    ) -> (done: Result<(), MarketError>)
        requires
            old(self).wf(),
        ensures
            final(self).wf(),
            final(self).owner_id == old(self).owner_id,
            final(self).by_owner_id == old(self).by_owner_id,
            final(self).ft_token_ids == old(self).ft_token_ids,
            ({
                let account = match account_id {
                    Some(id) => id@,
                    None => predecessor_id@,
                };
                if attached_deposit < STORAGE_PER_SALE {
                    done == Err::<(), MarketError>(MarketError::DepositTooSmall) && final(self).storage_deposits@ == old(self).storage_deposits@
                } else if old(self).paid(account) + attached_deposit > u128::MAX {
                    done == Err::<(), MarketError>(MarketError::Overflow) && final(self).storage_deposits@ == old(self).storage_deposits@
                } else {
                    done == Ok::<(), MarketError>(()) && final(self).storage_deposits@
                        == with_balance(
                        old(self).storage_deposits@,
                        deposits_key(),
                        account,
                        (old(self).paid(account) + attached_deposit) as u128,
                    )
                }
            }),
    {
        let storage_account_id = match account_id {
            Some(id) => id,
            None => predecessor_id.clone(),
        };
        let deposit = attached_deposit;
        if deposit < STORAGE_PER_SALE {
            return Err(MarketError::DepositTooSmall);
        }
        let key = String::new();
        let balance = match self.storage_deposits.st_get_balance(&key, &storage_account_id) {
            Some(balance) => balance,
            None => 0,
        };
        match balance.checked_add(deposit) {
            None => Err(MarketError::Overflow),
            Some(sum) => {
                self.storage_deposits.st_set_balance(&key, &storage_account_id, sum);
                Ok(())
            },
        }
    }

    /// Gives the caller back what it has paid for storage beyond what its
    /// sales take, and forgets its deposit. The result is what the host is
    /// to pay back. The call must carry the one-unit payment
    /// (`Unauthorized`), and the sales must not take more than was paid
    /// (`SalesExceedDeposit`); else nothing changes.
    pub fn storage_withdraw(&mut self, predecessor_id: &String, attached_deposit: u128) -> (refund:
        Result<u128, MarketError>)
        requires
            old(self).wf(),
        ensures
            final(self).wf(),
            final(self).owner_id == old(self).owner_id,
            final(self).by_owner_id == old(self).by_owner_id,
            final(self).ft_token_ids == old(self).ft_token_ids,
            if attached_deposit != ONE_YOCTO {
                refund == Err::<u128, MarketError>(MarketError::Unauthorized) && final(self).storage_deposits@ == old(self).storage_deposits@
            } else if old(self).owed(predecessor_id@) > old(self).paid(predecessor_id@) {
                refund == Err::<u128, MarketError>(MarketError::SalesExceedDeposit) && final(self).storage_deposits@ == old(self).storage_deposits@
            } else {
                refund == Ok::<u128, MarketError>(
                    (old(self).paid(predecessor_id@) - old(self).owed(predecessor_id@)) as u128,
                ) && final(self).storage_deposits@ == without_entry(
                    old(self).storage_deposits@,
                    deposits_key(),
                    predecessor_id@,
                )
            },
    {
        match assert_one_yocto(attached_deposit) {
            Err(_) => {
                return Err(MarketError::Unauthorized);
            },
            Ok(()) => {},
        }
        let key = String::new();
        let paid = match self.storage_deposits.st_get_balance(&key, predecessor_id) {
            Some(paid) => paid,
            None => 0,
        };
        let len = match find(&self.by_owner_id, predecessor_id) {
            None => 0,
            Some(i) => {
                proof {
                    lemma_position_unique(keys_of(self.by_owner_id@), i as int);
                }
                self.by_owner_id[i].token_ids.len()
            },
        };
        let owed = match (len as u128).checked_mul(STORAGE_PER_SALE) {
            Some(owed) => owed,
            None => {
                return Err(MarketError::SalesExceedDeposit);
            },
        };
        if owed > paid {
            return Err(MarketError::SalesExceedDeposit);
        }
        self.storage_deposits.remove(&key, predecessor_id);
        Ok(paid - owed)
    }

    /// The tokens accepted in payment, in the order in which they were
    /// added.
    pub fn supported_ft_token_ids(&self) -> (tokens: Vec<String>)
        ensures
            text_views(tokens@) == text_views(self.ft_token_ids@),
    {
        let mut tokens: Vec<String> = Vec::new();
        let mut i: usize = 0;
        while i < self.ft_token_ids.len()
            invariant
                i <= self.ft_token_ids.len(),
                tokens@.len() == i,
                forall|j: int| 0 <= j < i ==> (#[trigger] tokens@[j])@ == self.ft_token_ids@[j]@,
            decreases self.ft_token_ids.len() - i,
        {
            tokens.push(self.ft_token_ids[i].clone());
            i += 1;
        }
        assert(text_views(tokens@) =~= text_views(self.ft_token_ids@));
        tokens
    }

    /// What the storage of one sale costs.
    pub fn storage_amount(&self) -> (amount: u128)
        ensures
            amount == STORAGE_PER_SALE,
    {
        STORAGE_PER_SALE
    }

    /// What the account has paid for storage: nothing, where no deposit is
    /// kept.
    pub fn storage_paid(&self, account_id: String) -> (paid: u128)
        requires
            self.wf(),
        ensures
            paid == self.paid(account_id@),
    {
        let key = String::new();
        match self.storage_deposits.st_get_balance(&key, &account_id) {
            Some(paid) => paid,
            None => 0,
        }
    }
}

} // verus!
