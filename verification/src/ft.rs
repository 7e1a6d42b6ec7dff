use vstd::prelude::*;
use crate::error::TokenError;
use crate::ledger::{
    entry_views, holdings_within, BalanceEntry, balance_of, deposit_spec, distinct_keys, holdings,
    lemma_deposit_holdings, lemma_transfer_conserves, lemma_with_balance_holdings, register_spec,
    transfer_spec, with_balance, without_entry, EntryView, Ledger,
};
use crate::metadata::clone_optional;

verus! {

/// What the token says of itself.
pub struct FungibleTokenMetadata {
    pub version: Option<String>,
    pub name: String,
    pub symbol: String,
    pub reference: Option<String>,
    pub reference_hash: Option<[u8; 32]>,
    pub decimals: u8,
}

impl Clone for FungibleTokenMetadata {
    fn clone(&self) -> (copy: FungibleTokenMetadata)
        ensures
            copy == *self,
    {
        FungibleTokenMetadata {
            version: clone_optional(&self.version),
            name: self.name.clone(),
            symbol: self.symbol.clone(),
            reference: clone_optional(&self.reference),
            reference_hash: self.reference_hash,
            decimals: self.decimals,
        }
    }
}

/// Something that can say what the token's metadata is.
pub trait FungibleTokenMetadataProvider {
    /// The metadata this provider holds.
    spec fn metadata(&self) -> FungibleTokenMetadata;

    /// A copy of the token's metadata.
    fn ft_metadata(&self) -> (copy: FungibleTokenMetadata)
        ensures
            copy == self.metadata(),
    ;
}

/// The key under which the ledger of the single currency keeps all its
/// accounts: the empty symbol.
pub open spec fn currency() -> Seq<char> {
    Seq::empty()
}

/// The ledger of a single currency: the balance of each registered account,
/// the allowance each owner grants to each escrow, and the total supply.
pub struct FungibleToken {
    /// The account that owns the token and may mint it.
    pub owner_id: String,
    /// For each registered account, its balance.
    pub accounts: Ledger,
    /// For each owner and escrow, the allowance granted; an allowance of
    /// nothing is not kept.
    pub allowances: Ledger,
    /// The sum of all balances.
    pub total_supply: u128,
    /// The bytes of storage that one account takes.
    pub account_storage_usage: u64,
    /// What the token says of itself.
    pub ft_metadata: FungibleTokenMetadata,
}

impl FungibleToken {
    /// The balance of `account`, where it is registered.
    pub open spec fn balance(&self, account: Seq<char>) -> Option<u128> {
        balance_of(self.accounts@, currency(), account)
    }

    /// The allowance that `owner` grants to `escrow`: nothing, where none is
    /// kept.
    pub open spec fn allowance(&self, owner: Seq<char>, escrow: Seq<char>) -> u128 {
        match balance_of(self.allowances@, owner, escrow) {
            Some(granted) => granted,
            None => 0,
        }
    }

    /// The token's invariant: each account and each allowance is kept once,
    /// and the balances add up to the total supply.
    pub open spec fn wf(&self) -> bool {
        &&& self.accounts.wf()
        &&& self.allowances.wf()
        &&& holdings(self.accounts@, currency()) == self.total_supply
    }

    /// Whether `other` differs from this state in the accounts at most.
    pub open spec fn same_but_accounts(&self, other: &FungibleToken) -> bool {
        &&& self.owner_id == other.owner_id
        &&& self.allowances@ == other.allowances@
        &&& self.total_supply == other.total_supply
        &&& self.account_storage_usage == other.account_storage_usage
        &&& self.ft_metadata == other.ft_metadata
    }

    /// A token of which `owner_id` holds the whole supply, `total_supply`.
    /// One account takes `account_storage_usage` bytes of storage.
    pub fn new(
        owner_id: String,
        total_supply: u128,
        version: Option<String>,
        name: String,
        symbol: String,
        reference: Option<String>,
        reference_hash: Option<[u8; 32]>,
        decimals: u8,
        account_storage_usage: u64,
    ) -> (token: FungibleToken)
        ensures
            token.wf(),
            token.owner_id == owner_id,
            token.total_supply == total_supply,
            token.account_storage_usage == account_storage_usage,
            token.accounts@ == with_balance(
                Seq::<EntryView>::empty(),
                currency(),
                owner_id@,
                total_supply,
            ),
            token.allowances@ == Seq::<EntryView>::empty(),
            token.ft_metadata == (FungibleTokenMetadata {
                version,
                name,
                symbol,
                reference,
                reference_hash,
                decimals,
            }),
    {
        let mut accounts = Ledger::new();
        let key = String::new();
        proof {
            lemma_with_balance_holdings(
                Seq::<EntryView>::empty(),
                currency(),
                owner_id@,
                total_supply,
                currency(),
            );
        }
        accounts.st_set_balance(&key, &owner_id, total_supply);
        FungibleToken {
            owner_id,
            accounts,
            allowances: Ledger::new(),
            total_supply,
            account_storage_usage,
            ft_metadata: FungibleTokenMetadata {
                version,
                name,
                symbol,
                reference,
                reference_hash,
                decimals,
            },
        }
    }

    /// The token that holds exactly what is given, or `None` where that
    /// breaks the token's invariant: an account or an allowance that is kept
    /// twice, or balances that do not add up to the total supply.
    pub fn restore(
        owner_id: String,
        accounts: Vec<BalanceEntry>,
        allowances: Vec<BalanceEntry>,
        total_supply: u128,
        account_storage_usage: u64,
        ft_metadata: FungibleTokenMetadata,
    ) -> (token: Option<FungibleToken>)
        ensures
            match token {
                Some(t) => t.wf() && t.owner_id == owner_id && t.accounts@ == entry_views(accounts@)
                    && t.allowances@ == entry_views(allowances@) && t.total_supply == total_supply
                    && t.account_storage_usage == account_storage_usage && t.ft_metadata
                    == ft_metadata,
                None => !(distinct_keys(entry_views(accounts@)) && distinct_keys(
                    entry_views(allowances@),
                ) && holdings(entry_views(accounts@), currency()) == total_supply),
            },
    {
        let key = String::new();
        if !holdings_within(&accounts, &key, total_supply) {
            return None;
        }
        if total_supply > 0 && holdings_within(&accounts, &key, total_supply - 1) {
            return None;
        }
        let kept = match Ledger::from_entries(accounts) {
            Some(kept) => kept,
            None => {
                return None;
            },
        };
        let granted = match Ledger::from_entries(allowances) {
            Some(granted) => granted,
            None => {
                return None;
            },
        };
        Some(
            FungibleToken {
                owner_id,
                accounts: kept,
                allowances: granted,
                total_supply,
                account_storage_usage,
                ft_metadata,
            },
        )
    }

    /// The balance of `account_id`, or `None` where it is not registered.
    pub fn get_balance(&self, account_id: &String) -> (balance: Option<u128>)
        requires
            self.wf(),
        ensures
            balance == self.balance(account_id@),
    {
        let key = String::new();
        self.accounts.st_get_balance(&key, account_id)
    }

    /// Registers `account_id` with a balance of nothing. An account that is
    /// registered already fails with `AlreadyRegistered`.
    pub fn register_account(&mut self, account_id: &String) -> (done: Result<(), TokenError>)
        requires
            old(self).wf(),
        ensures
            final(self).wf(),
            final(self).same_but_accounts(old(self)),
            match done {
                Ok(()) => register_spec(old(self).accounts@, currency(), account_id@) == Ok::<
                    Seq<EntryView>,
                    TokenError,
                >(final(self).accounts@),
                Err(e) => register_spec(old(self).accounts@, currency(), account_id@) == Err::<
                    Seq<EntryView>,
                    TokenError,
                >(e) && final(self).accounts@ == old(self).accounts@,
            },
    {
        let key = String::new();
        proof {
            lemma_with_balance_holdings(self.accounts@, currency(), account_id@, 0, currency());
        }
        self.accounts.register(&key, account_id)
    }

    /// Moves `amount` from `sender_id` to `receiver_id`. Sender and receiver
    /// must differ (`SameAccountTransfer`), both must be registered
    /// (`AccountNotRegistered`), the sender must hold the amount
    /// (`InsufficientBalance`) and the receiver's balance must stay within a
    /// `u128` (`BalanceOverflow`). A transfer that fails changes nothing.
    /// The memo is a note for the record and changes nothing.
    pub fn internal_transfer(
        &mut self,
        sender_id: &String,
        receiver_id: &String,
        amount: u128,
        memo: Option<String>,
    ) -> (done: Result<(), TokenError>)
        requires
            old(self).wf(),
        ensures
            final(self).wf(),
            final(self).same_but_accounts(old(self)),
            match done {
                Ok(()) => transfer_spec(
                    old(self).accounts@,
                    currency(),
                    sender_id@,
                    receiver_id@,
                    amount,
                ) == Ok::<Seq<EntryView>, TokenError>(final(self).accounts@),
                Err(e) => transfer_spec(
                    old(self).accounts@,
                    currency(),
                    sender_id@,
                    receiver_id@,
                    amount,
                ) == Err::<Seq<EntryView>, TokenError>(e) && final(self).accounts@ == old(self).accounts@,
            },
    {
        let key = String::new();
        let done = self.accounts.transfer(&key, sender_id, receiver_id, amount);
        proof {
            if done is Ok {
                lemma_transfer_conserves(
                    old(self).accounts@,
                    currency(),
                    sender_id@,
                    receiver_id@,
                    amount,
                    currency(),
                );
            }
        }
        done
    }

    /// Sets the allowance that `signer_id` grants to `escrow_account_id`.
    /// An allowance of nothing removes what was granted. An account may not
    /// grant an allowance to itself: that fails with `SelfAllowance` and
    /// changes nothing.
    pub fn set_allowance(
        &mut self,
        signer_id: &String,
        escrow_account_id: String,
        allowance: u128,
    ) -> (done: Result<(), TokenError>)
        requires
            old(self).wf(),
        ensures
            final(self).wf(),
            final(self).owner_id == old(self).owner_id,
            final(self).accounts@ == old(self).accounts@,
            final(self).total_supply == old(self).total_supply,
            final(self).account_storage_usage == old(self).account_storage_usage,
            final(self).ft_metadata == old(self).ft_metadata,
            match done {
                Ok(()) => escrow_account_id@ != signer_id@ && final(self).allowances@ == if allowance
                    > 0 {
                    with_balance(old(self).allowances@, signer_id@, escrow_account_id@, allowance)
                } else {
                    without_entry(old(self).allowances@, signer_id@, escrow_account_id@)
                },
                Err(e) => escrow_account_id@ == signer_id@ && e == TokenError::SelfAllowance
                    && final(self).allowances@ == old(self).allowances@,
            },
    {
        if escrow_account_id == *signer_id {
            return Err(TokenError::SelfAllowance);
        }
        if allowance > 0 {
            self.allowances.st_set_balance(signer_id, &escrow_account_id, allowance);
        } else {
            self.allowances.remove(signer_id, &escrow_account_id);
        }
        Ok(())
    }

    /// The allowance that `owner_id` grants to `escrow_account_id`: nothing,
    /// where none is kept.
    pub fn get_allowance(&self, owner_id: String, escrow_account_id: String) -> (allowance: u128)
        requires
            self.wf(),
        ensures
            allowance == self.allowance(owner_id@, escrow_account_id@),
    {
        match self.allowances.st_get_balance(&owner_id, &escrow_account_id) {
            Some(allowance) => allowance,
            None => 0,
        }
    }

    /// Mints `amount` for the owner: only the owner may call, else the mint
    /// is refused with `Unauthorized`. Total supply and the owner's balance
    /// rise by the amount; a supply beyond `u128::MAX` fails with
    /// `BalanceOverflow`, an owner that is not registered with
    /// `AccountNotRegistered`. A mint that fails changes nothing.
    pub fn mint(&mut self, predecessor_id: &String, amount: u128) -> (done: Result<(), TokenError>)
        requires
            old(self).wf(),
        ensures
            final(self).wf(),
            final(self).owner_id == old(self).owner_id,
            final(self).allowances@ == old(self).allowances@,
            final(self).account_storage_usage == old(self).account_storage_usage,
            final(self).ft_metadata == old(self).ft_metadata,
            match done {
                Ok(()) => {
                    &&& predecessor_id@ == old(self).owner_id@
                    &&& final(self).total_supply == old(self).total_supply + amount
                    &&& deposit_spec(old(self).accounts@, currency(), old(self).owner_id@, amount)
                        == Ok::<Seq<EntryView>, TokenError>(final(self).accounts@)
                },
                Err(e) => {
                    &&& final(self).accounts@ == old(self).accounts@
                    &&& final(self).total_supply == old(self).total_supply
                    &&& e == if predecessor_id@ != old(self).owner_id@ {
                        TokenError::Unauthorized
                    } else if old(self).total_supply + amount > u128::MAX {
                        TokenError::BalanceOverflow
                    } else {
                        TokenError::AccountNotRegistered
                    }
                    &&& predecessor_id@ == old(self).owner_id@ && old(self).total_supply + amount
                        <= u128::MAX ==> old(self).balance(old(self).owner_id@) is None
                },
            },
    {
        if *predecessor_id != self.owner_id {
            return Err(TokenError::Unauthorized);
        }
        let total = match self.total_supply.checked_add(amount) {
            Some(total) => total,
            None => {
                return Err(TokenError::BalanceOverflow);
            },
        };
        let key = String::new();
        proof {
            if deposit_spec(self.accounts@, currency(), self.owner_id@, amount) is Ok {
                lemma_deposit_holdings(
                    self.accounts@,
                    currency(),
                    self.owner_id@,
                    amount,
                    currency(),
                );
            }
            if self.balance(self.owner_id@) is Some {
                crate::ledger::lemma_balance_within_holdings(
                    self.accounts@,
                    currency(),
                    self.owner_id@,
                );
            }
        }
        match self.accounts.deposit(&key, &self.owner_id, amount) {
            Ok(()) => {
                self.total_supply = total;
                Ok(())
            },
            Err(e) => Err(e),
        }
    }
}

impl FungibleTokenMetadataProvider for FungibleToken {
    open spec fn metadata(&self) -> FungibleTokenMetadata {
        self.ft_metadata
    }

    fn ft_metadata(&self) -> (copy: FungibleTokenMetadata) {
        self.ft_metadata.clone()
    }
}

} // verus!
