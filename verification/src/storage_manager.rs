use vstd::prelude::*;
use crate::error::TokenError;
use crate::guard::{assert_one_yocto, ONE_YOCTO};
use crate::ledger::{
    balance_of, deregister_spec, holdings, lemma_with_balance_holdings,
    lemma_without_entry_holdings, register_spec, EntryView,
};
use crate::registry::{supply_of, SocialTokens};

verus! {

/// The price of one byte of storage.
pub const STORAGE_PRICE_PER_BYTE: u128 = 10_000_000_000_000_000_000;

/// What an account has paid for storage, and what of it the account could
/// take out now.
#[derive(Clone, Copy, Debug, PartialEq, Eq, Structural)]
pub struct AccountStorageBalance {
    pub total: u128,
    pub available: u128,
}

/// What the release of an account's storage yields: the account's storage
/// balance afterwards, and what the host is to pay back to the account.
#[derive(Clone, Copy, Debug, PartialEq, Eq, Structural)]
pub struct StorageRelease {
    pub balance: AccountStorageBalance,
    pub refund: u128,
}

/// The fee for one balance entry of `usage` bytes.
pub open spec fn minimum_balance(usage: u64) -> u128 {
    (usage * STORAGE_PRICE_PER_BYTE) as u128
}

/// The fee for any entry fits a `u128`, with room for the unit that
/// authorises its release.
pub proof fn lemma_minimum_balance_fits(usage: u64)
    ensures
        usage * STORAGE_PRICE_PER_BYTE + 1 <= u128::MAX,
{
    assert(usage * STORAGE_PRICE_PER_BYTE <= 0xffff_ffff_ffff_ffff * STORAGE_PRICE_PER_BYTE)
        by (nonlinear_arith)
        requires
            usage <= 0xffff_ffff_ffff_ffff,
    ;
}

/// What a storage deposit does: the fee attached must be the fee asked for;
/// then the account named, or the caller where none is named, is registered.
pub open spec fn storage_deposit_spec(
    entries: Seq<EntryView>,
    usage: u64,
    caller: Seq<char>,
    attached_deposit: u128,
    symbol: Seq<char>,
    account: Option<Seq<char>>,
) -> Result<Seq<EntryView>, TokenError> {
    if attached_deposit != minimum_balance(usage) {
        Err(TokenError::WrongStorageFee)
    } else {
        register_spec(
            entries,
            symbol,
            match account {
                Some(id) => id,
                None => caller,
            },
        )
    }
}

/// What a storage withdrawal does: it must carry the one-unit payment and
/// name the exact fee; then the caller's entry is removed, if it is an
/// entry of zero.
pub open spec fn storage_withdraw_spec(
    entries: Seq<EntryView>,
    usage: u64,
    caller: Seq<char>,
    attached_deposit: u128,
    symbol: Seq<char>,
    amount: u128,
) -> Result<Seq<EntryView>, TokenError> {
    if attached_deposit != ONE_YOCTO {
        Err(TokenError::Unauthorized)
    } else if amount != minimum_balance(usage) {
        Err(TokenError::WrongStorageFee)
    } else {
        deregister_spec(entries, symbol, caller)
    }
}

/// The storage balance of an account: nothing for one that is not
/// registered; the fee for one that is, of which it could take out all
/// while it holds no tokens and nothing while it does.
pub open spec fn storage_balance_spec(
    entries: Seq<EntryView>,
    usage: u64,
    symbol: Seq<char>,
    account: Seq<char>,
) -> AccountStorageBalance {
    match balance_of(entries, symbol, account) {
        Some(balance) => AccountStorageBalance {
            total: minimum_balance(usage),
            available: if balance > 0 {
                0
            } else {
                minimum_balance(usage)
            },
        },
        None => AccountStorageBalance { total: 0, available: 0 },
    }
}

/// The registration of accounts: an account pays a fixed fee for the
/// storage of its balance entry, and gets it back when it leaves.
pub trait StorageManager: Sized {
    /// Whether the state is one that the operations accept.
    spec fn valid(&self) -> bool;

    /// The balance entries.
    spec fn entries(&self) -> Seq<EntryView>;

    /// The bytes of storage that one balance entry takes.
    spec fn entry_bytes(&self) -> u64;

    /// Registers `account_id`, or the caller where none is named, under
    /// `token_symbol`, with a balance of zero. Fails with `WrongStorageFee`
    /// unless exactly the fee is attached, and with `AlreadyRegistered`
    /// where the account has an entry already; then nothing changes.
    fn storage_deposit(
        &mut self,
        caller: &String,
        attached_deposit: u128,
        token_symbol: String,
        account_id: Option<String>,
    ) -> (paid: Result<AccountStorageBalance, TokenError>)
        requires
            old(self).valid(),
        ensures
            final(self).valid(),
            final(self).entry_bytes() == old(self).entry_bytes(),
            match paid {
                Ok(balance) => storage_deposit_spec(
                    old(self).entries(),
                    old(self).entry_bytes(),
                    caller@,
                    attached_deposit,
                    token_symbol@,
                    match account_id {
                        Some(id) => Some(id@),
                        None => None,
                    },
                ) == Ok::<Seq<EntryView>, TokenError>(final(self).entries()) && balance == (
                AccountStorageBalance { total: attached_deposit, available: attached_deposit }),
                Err(e) => storage_deposit_spec(
                    old(self).entries(),
                    old(self).entry_bytes(),
                    caller@,
                    attached_deposit,
                    token_symbol@,
                    match account_id {
                        Some(id) => Some(id@),
                        None => None,
                    },
                ) == Err::<Seq<EntryView>, TokenError>(e) && final(self).entries() == old(self).entries(),
            },
    ;

    /// Releases the caller from `token_symbol`: removes its entry and says
    /// what the host is to pay back, the fee and the unit attached. Fails
    /// with `Unauthorized` without the one-unit payment, with
    /// `WrongStorageFee` unless `amount` is exactly the fee, with
    /// `AccountNotRegistered` where the caller has no entry, and with
    /// `NonZeroBalanceOnDeregister` where it still holds tokens; then
    /// nothing changes.
    fn storage_withdraw(
        &mut self,
        caller: &String,
        attached_deposit: u128,
        token_symbol: String,
        amount: u128,
    ) -> (released: Result<StorageRelease, TokenError>)
        requires
            old(self).valid(),
        ensures
            final(self).valid(),
            final(self).entry_bytes() == old(self).entry_bytes(),
            match released {
                Ok(release) => storage_withdraw_spec(
                    old(self).entries(),
                    old(self).entry_bytes(),
                    caller@,
                    attached_deposit,
                    token_symbol@,
                    amount,
                ) == Ok::<Seq<EntryView>, TokenError>(final(self).entries()) && release == (
                StorageRelease {
                    balance: AccountStorageBalance { total: 0, available: 0 },
                    refund: (amount + 1) as u128,
                }),
                Err(e) => storage_withdraw_spec(
                    old(self).entries(),
                    old(self).entry_bytes(),
                    caller@,
                    attached_deposit,
                    token_symbol@,
                    amount,
                ) == Err::<Seq<EntryView>, TokenError>(e) && final(self).entries() == old(self).entries(),
            },
    ;

    /// The fee for one balance entry.
    fn storage_minimum_balance(&self) -> (fee: u128)
        ensures
            fee == minimum_balance(self.entry_bytes()),
    ;

    /// The storage balance of `account_id` under `token_symbol`.
    fn storage_balance_of(&self, token_symbol: String, account_id: String) -> (balance:
        AccountStorageBalance)
        requires
            self.valid(),
        ensures
            balance == storage_balance_spec(
                self.entries(),
                self.entry_bytes(),
                token_symbol@,
                account_id@,
            ),
    ;
}

impl StorageManager for SocialTokens {
    open spec fn valid(&self) -> bool {
        self.wf()
    }

    open spec fn entries(&self) -> Seq<EntryView> {
        self.balances()
    }

    open spec fn entry_bytes(&self) -> u64 {
        self.account_storage_usage
    }

    fn storage_deposit(
        &mut self,
        caller: &String,
        attached_deposit: u128,
        token_symbol: String,
        account_id: Option<String>,
    ) -> (paid: Result<AccountStorageBalance, TokenError>)
        ensures
            final(self).tokens() == old(self).tokens(),
            final(self).same_settings(old(self)),
    {
        let amount = attached_deposit;
        if amount != self.storage_minimum_balance() {
            return Err(TokenError::WrongStorageFee);
        }
        let account_id = match account_id {
            Some(id) => id,
            None => caller.clone(),
        };
        let registered = self.st_to_accounts.register(&token_symbol, &account_id);
        proof {
            if registered is Ok {
                assert forall|symbol: Seq<char>| #[trigger]
                    holdings(self.balances(), symbol) <= supply_of(self.tokens(), symbol) by {
                    lemma_with_balance_holdings(
                        old(self).balances(),
                        token_symbol@,
                        account_id@,
                        0,
                        symbol,
                    );
                }
            }
        }
        match registered {
            Err(e) => Err(e),
            Ok(()) => Ok(AccountStorageBalance { total: amount, available: amount }),
        }
    }

    fn storage_withdraw(
        &mut self,
        caller: &String,
        attached_deposit: u128,
        token_symbol: String,
        amount: u128,
    ) -> (released: Result<StorageRelease, TokenError>)
        ensures
            final(self).tokens() == old(self).tokens(),
            final(self).same_settings(old(self)),
    {
        match assert_one_yocto(attached_deposit) {
            Err(e) => {
                return Err(e);
            },
            Ok(()) => {},
        }
        if amount != self.storage_minimum_balance() {
            return Err(TokenError::WrongStorageFee);
        }
        proof {
            lemma_minimum_balance_fits(self.account_storage_usage);
        }
        let removed = self.st_to_accounts.deregister(&token_symbol, caller);
        proof {
            if removed is Ok {
                assert forall|symbol: Seq<char>| #[trigger]
                    holdings(self.balances(), symbol) <= supply_of(self.tokens(), symbol) by {
                    lemma_without_entry_holdings(
                        old(self).balances(),
                        token_symbol@,
                        caller@,
                        symbol,
                    );
                }
            }
        }
        match removed {
            Err(e) => Err(e),
            Ok(()) => Ok(
                StorageRelease {
                    balance: AccountStorageBalance { total: 0, available: 0 },
                    refund: amount + 1,
                },
            ),
        }
    }

    fn storage_minimum_balance(&self) -> (fee: u128) {
        proof {
            lemma_minimum_balance_fits(self.account_storage_usage);
        }
        (self.account_storage_usage as u128) * STORAGE_PRICE_PER_BYTE
    }

    fn storage_balance_of(&self, token_symbol: String, account_id: String) -> (balance:
        AccountStorageBalance) {
        match self.st_to_accounts.st_get_balance(&token_symbol, &account_id) {
            Some(balance) => AccountStorageBalance {
                total: self.storage_minimum_balance(),
                available: if balance > 0 {
                    0
                } else {
                    self.storage_minimum_balance()
                },
            },
            None => AccountStorageBalance { total: 0, available: 0 },
        }
    }
}

} // verus!
