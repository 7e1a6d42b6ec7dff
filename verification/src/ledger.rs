use vstd::prelude::*;
use crate::error::TokenError;

verus! {

/// A balance entry as the contracts see it: the token's symbol, the holder's
/// account identifier, and the number of token units held.
pub struct EntryView {
    pub symbol: Seq<char>,
    pub account: Seq<char>,
    pub balance: u128,
}

/// Whether the entry is the one kept for `account` under `symbol`.
pub open spec fn has_key(entry: EntryView, symbol: Seq<char>, account: Seq<char>) -> bool {
    entry.symbol == symbol && entry.account == account
}

/// No two entries are kept for the same account under the same symbol.
pub open spec fn distinct_keys(entries: Seq<EntryView>) -> bool {
    forall|i: int, j: int|
        0 <= i < entries.len() && 0 <= j < entries.len() && i != j ==> !has_key(
            #[trigger] entries[i],
            (#[trigger] entries[j]).symbol,
            entries[j].account,
        )
}

/// Whether `account` is registered under `symbol`, that is, has an entry, be
/// it an entry of zero.
pub open spec fn is_registered(
    entries: Seq<EntryView>,
    symbol: Seq<char>,
    account: Seq<char>,
) -> bool {
    exists|i: int| 0 <= i < entries.len() && has_key(#[trigger] entries[i], symbol, account)
}

/// The place of the entry of `account` under `symbol`, where there is one.
pub open spec fn index_of(entries: Seq<EntryView>, symbol: Seq<char>, account: Seq<char>) -> int {
    choose|i: int| 0 <= i < entries.len() && has_key(#[trigger] entries[i], symbol, account)
}

/// The balance of `account` under `symbol`: `None` for an account that is not
/// registered, which is not the same as a balance of zero.
pub open spec fn balance_of(
    entries: Seq<EntryView>,
    symbol: Seq<char>,
    account: Seq<char>,
) -> Option<u128> {
    if is_registered(entries, symbol, account) {
        Some(entries[index_of(entries, symbol, account)].balance)
    } else {
        None
    }
}

/// The sum of all balances held under `symbol`.
pub open spec fn holdings(entries: Seq<EntryView>, symbol: Seq<char>) -> nat
    decreases entries.len(),
{
    if entries.len() == 0 {
        0
    } else {
        holdings(entries.drop_last(), symbol) + if entries.last().symbol == symbol {
            entries.last().balance as nat
        } else {
            0
        }
    }
}

/// The entries with the balance of `account` under `symbol` set to `balance`;
/// an account that had no entry gets one.
pub open spec fn with_balance(
    entries: Seq<EntryView>,
    symbol: Seq<char>,
    account: Seq<char>,
    balance: u128,
) -> Seq<EntryView> {
    let entry = EntryView { symbol, account, balance };
    if is_registered(entries, symbol, account) {
        entries.update(index_of(entries, symbol, account), entry)
    } else {
        entries.push(entry)
    }
}

/// The entries without the entry of `account` under `symbol`.
pub open spec fn without_entry(
    entries: Seq<EntryView>,
    symbol: Seq<char>,
    account: Seq<char>,
) -> Seq<EntryView> {
    if is_registered(entries, symbol, account) {
        entries.remove(index_of(entries, symbol, account))
    } else {
        entries
    }
}

/// What a deposit does: the account must be registered, and its balance must
/// not exceed what a `u128` holds.
pub open spec fn deposit_spec(
    entries: Seq<EntryView>,
    symbol: Seq<char>,
    account: Seq<char>,
    amount: u128,
) -> Result<Seq<EntryView>, TokenError> {
    match balance_of(entries, symbol, account) {
        None => Err(TokenError::AccountNotRegistered),
        Some(balance) => if balance + amount > u128::MAX {
            Err(TokenError::BalanceOverflow)
        } else {
            Ok(with_balance(entries, symbol, account, (balance + amount) as u128))
        },
    }
}

/// What a withdrawal does: the account must be registered and must hold at
/// least `amount`.
pub open spec fn withdraw_spec(
    entries: Seq<EntryView>,
    symbol: Seq<char>,
    account: Seq<char>,
    amount: u128,
) -> Result<Seq<EntryView>, TokenError> {
    match balance_of(entries, symbol, account) {
        None => Err(TokenError::AccountNotRegistered),
        Some(balance) => if balance < amount {
            Err(TokenError::InsufficientBalance)
        } else {
            Ok(with_balance(entries, symbol, account, (balance - amount) as u128))
        },
    }
}

/// What a transfer does: sender and receiver must differ; then the amount is
/// withdrawn from the sender and deposited with the receiver, both or none.
pub open spec fn transfer_spec(
    entries: Seq<EntryView>,
    symbol: Seq<char>,
    sender: Seq<char>,
    receiver: Seq<char>,
    amount: u128,
) -> Result<Seq<EntryView>, TokenError> {
    if sender == receiver {
        Err(TokenError::SameAccountTransfer)
    } else {
        match withdraw_spec(entries, symbol, sender, amount) {
            Err(e) => Err(e),
            Ok(debited) => deposit_spec(debited, symbol, receiver, amount),
        }
    }
}

/// What a registration does: the account must not be registered yet; it
/// gets an entry of zero.
pub open spec fn register_spec(
    entries: Seq<EntryView>,
    symbol: Seq<char>,
    account: Seq<char>,
) -> Result<Seq<EntryView>, TokenError> {
    if is_registered(entries, symbol, account) {
        Err(TokenError::AlreadyRegistered)
    } else {
        Ok(with_balance(entries, symbol, account, 0))
    }
}

/// What a deregistration does: the account must be registered and hold
/// exactly nothing; its entry is removed.
pub open spec fn deregister_spec(
    entries: Seq<EntryView>,
    symbol: Seq<char>,
    account: Seq<char>,
) -> Result<Seq<EntryView>, TokenError> {
    match balance_of(entries, symbol, account) {
        None => Err(TokenError::AccountNotRegistered),
        Some(balance) => if balance != 0 {
            Err(TokenError::NonZeroBalanceOnDeregister)
        } else {
            Ok(without_entry(entries, symbol, account))
        },
    }
}

/// What an entry adds to the holdings under `symbol`.
pub open spec fn share(entry: EntryView, symbol: Seq<char>) -> nat {
    if entry.symbol == symbol {
        entry.balance as nat
    } else {
        0
    }
}

/// With distinct keys, the entry found at a place is the entry of its key.
pub proof fn lemma_index_unique(
    entries: Seq<EntryView>,
    i: int,
    symbol: Seq<char>,
    account: Seq<char>,
)
    requires
        distinct_keys(entries),
        0 <= i < entries.len(),
        has_key(entries[i], symbol, account),
    ensures
        is_registered(entries, symbol, account),
        index_of(entries, symbol, account) == i,
        balance_of(entries, symbol, account) == Some(entries[i].balance),
{
    let j = index_of(entries, symbol, account);
    assert(has_key(entries[j], entries[i].symbol, entries[i].account));
}

/// Setting a balance keeps the keys distinct.
pub proof fn lemma_with_balance_distinct(
    entries: Seq<EntryView>,
    symbol: Seq<char>,
    account: Seq<char>,
    balance: u128,
)
    requires
        distinct_keys(entries),
    ensures
        distinct_keys(with_balance(entries, symbol, account, balance)),
{
    let next = with_balance(entries, symbol, account, balance);
    if is_registered(entries, symbol, account) {
        let k = index_of(entries, symbol, account);
        assert forall|i: int, j: int|
            0 <= i < next.len() && 0 <= j < next.len() && i != j implies !has_key(
            #[trigger] next[i],
            (#[trigger] next[j]).symbol,
            next[j].account,
        ) by {
            assert(has_key(entries[i], next[i].symbol, next[i].account));
            assert(has_key(entries[j], next[j].symbol, next[j].account));
        }
    } else {
        assert forall|i: int, j: int|
            0 <= i < next.len() && 0 <= j < next.len() && i != j implies !has_key(
            #[trigger] next[i],
            (#[trigger] next[j]).symbol,
            next[j].account,
        ) by {
            if i < entries.len() && j < entries.len() {
                assert(next[i] == entries[i] && next[j] == entries[j]);
            } else if i < entries.len() {
                assert(next[i] == entries[i]);
            } else {
                assert(next[j] == entries[j]);
            }
        }
    }
}

/// Setting a balance changes the balance of that one account under that one
/// symbol, and of no other.
pub proof fn lemma_with_balance_lookup(
    entries: Seq<EntryView>,
    symbol: Seq<char>,
    account: Seq<char>,
    balance: u128,
    other_symbol: Seq<char>,
    other_account: Seq<char>,
)
    requires
        distinct_keys(entries),
    ensures
        balance_of(with_balance(entries, symbol, account, balance), other_symbol, other_account)
            == if other_symbol == symbol && other_account == account {
            Some(balance)
        } else {
            balance_of(entries, other_symbol, other_account)
        },
{
    let next = with_balance(entries, symbol, account, balance);
    lemma_with_balance_distinct(entries, symbol, account, balance);
    let k = if is_registered(entries, symbol, account) {
        index_of(entries, symbol, account)
    } else {
        entries.len() as int
    };
    assert(has_key(next[k], symbol, account));
    if other_symbol == symbol && other_account == account {
        lemma_index_unique(next, k, symbol, account);
    } else if is_registered(entries, other_symbol, other_account) {
        let j = index_of(entries, other_symbol, other_account);
        assert(next[j] == entries[j]);
        lemma_index_unique(next, j, other_symbol, other_account);
    } else if is_registered(next, other_symbol, other_account) {
        let j = index_of(next, other_symbol, other_account);
        assert(j != k);
        assert(next[j] == entries[j]);
        assert(has_key(entries[j], other_symbol, other_account));
    }
}

/// Replacing the balance at one place moves the holdings by the difference.
proof fn lemma_holdings_update(entries: Seq<EntryView>, i: int, balance: u128, symbol: Seq<char>)
    requires
        0 <= i < entries.len(),
    ensures
        holdings(
            entries.update(
                i,
                EntryView { symbol: entries[i].symbol, account: entries[i].account, balance },
            ),
            symbol,
        ) + share(entries[i], symbol) == holdings(entries, symbol) + share(
            EntryView { symbol: entries[i].symbol, account: entries[i].account, balance },
            symbol,
        ),
    decreases entries.len(),
{
    let entry = EntryView { symbol: entries[i].symbol, account: entries[i].account, balance };
    let next = entries.update(i, entry);
    if i == entries.len() - 1 {
        assert(next.drop_last() =~= entries.drop_last());
    } else {
        assert(next.drop_last() =~= entries.drop_last().update(i, entry));
        lemma_holdings_update(entries.drop_last(), i, balance, symbol);
    }
}

/// Removing the entry at one place lowers the holdings by its share.
proof fn lemma_holdings_remove(entries: Seq<EntryView>, i: int, symbol: Seq<char>)
    requires
        0 <= i < entries.len(),
    ensures
        holdings(entries.remove(i), symbol) + share(entries[i], symbol) == holdings(
            entries,
            symbol,
        ),
    decreases entries.len(),
{
    let next = entries.remove(i);
    if i == entries.len() - 1 {
        assert(next =~= entries.drop_last());
    } else {
        assert(next.drop_last() =~= entries.drop_last().remove(i));
        assert(next.last() == entries.last());
        lemma_holdings_remove(entries.drop_last(), i, symbol);
    }
}

/// No balance exceeds the holdings under its symbol.
proof fn lemma_share_bounded(entries: Seq<EntryView>, i: int, symbol: Seq<char>)
    requires
        0 <= i < entries.len(),
    ensures
        share(entries[i], symbol) <= holdings(entries, symbol),
    decreases entries.len(),
{
    if i < entries.len() - 1 {
        lemma_share_bounded(entries.drop_last(), i, symbol);
    }
}

/// A balance is part of the holdings under its symbol, and so at most as
/// large.
pub proof fn lemma_balance_within_holdings(
    entries: Seq<EntryView>,
    symbol: Seq<char>,
    account: Seq<char>,
)
    requires
        balance_of(entries, symbol, account) is Some,
    ensures
        balance_of(entries, symbol, account)->Some_0 <= holdings(entries, symbol),
{
    lemma_share_bounded(entries, index_of(entries, symbol, account), symbol);
}

/// Setting a balance moves the holdings under the entry's symbol by the
/// difference between the new balance and the old one (nothing, for an
/// account that had no entry), and leaves the holdings under every other
/// symbol as they were.
pub proof fn lemma_with_balance_holdings(
    entries: Seq<EntryView>,
    symbol: Seq<char>,
    account: Seq<char>,
    balance: u128,
    other_symbol: Seq<char>,
)
    ensures
        holdings(with_balance(entries, symbol, account, balance), other_symbol) == if other_symbol
            == symbol {
            holdings(entries, symbol) + balance - match balance_of(entries, symbol, account) {
                Some(before) => before as int,
                None => 0,
            }
        } else {
            holdings(entries, other_symbol) as int
        },
{
    let next = with_balance(entries, symbol, account, balance);
    if is_registered(entries, symbol, account) {
        let k = index_of(entries, symbol, account);
        lemma_holdings_update(entries, k, balance, other_symbol);
    } else {
        assert(next.drop_last() =~= entries);
    }
}

/// Removing an entry lowers the holdings under its symbol by its balance,
/// and leaves the holdings under every other symbol as they were.
pub proof fn lemma_without_entry_holdings(
    entries: Seq<EntryView>,
    symbol: Seq<char>,
    account: Seq<char>,
    other_symbol: Seq<char>,
)
    ensures
        holdings(without_entry(entries, symbol, account), other_symbol) == if other_symbol
            == symbol {
            holdings(entries, symbol) - match balance_of(entries, symbol, account) {
                Some(before) => before as int,
                None => 0,
            }
        } else {
            holdings(entries, other_symbol) as int
        },
{
    if is_registered(entries, symbol, account) {
        lemma_holdings_remove(entries, index_of(entries, symbol, account), other_symbol);
    }
}

/// Removing an entry keeps the keys distinct, unregisters that one account
/// under that one symbol, and changes no other balance.
pub proof fn lemma_without_entry_lookup(
    entries: Seq<EntryView>,
    symbol: Seq<char>,
    account: Seq<char>,
    other_symbol: Seq<char>,
    other_account: Seq<char>,
)
    requires
        distinct_keys(entries),
    ensures
        distinct_keys(without_entry(entries, symbol, account)),
        balance_of(without_entry(entries, symbol, account), other_symbol, other_account)
            == if other_symbol == symbol && other_account == account {
            None
        } else {
            balance_of(entries, other_symbol, other_account)
        },
{
    let next = without_entry(entries, symbol, account);
    if is_registered(entries, symbol, account) {
        let k = index_of(entries, symbol, account);
        assert forall|i: int| 0 <= i < next.len() implies #[trigger] next[i] == entries[if i < k {
            i
        } else {
            i + 1
        }] by {}
        assert forall|i: int, j: int|
            0 <= i < next.len() && 0 <= j < next.len() && i != j implies !has_key(
            #[trigger] next[i],
            (#[trigger] next[j]).symbol,
            next[j].account,
        ) by {
            let i0 = if i < k { i } else { i + 1 };
            let j0 = if j < k { j } else { j + 1 };
            assert(next[i] == entries[i0] && next[j] == entries[j0]);
        }
        if other_symbol == symbol && other_account == account {
            if is_registered(next, symbol, account) {
                let j = index_of(next, symbol, account);
                let j0 = if j < k { j } else { j + 1 };
                assert(next[j] == entries[j0]);
                assert(has_key(entries[j0], entries[k].symbol, entries[k].account));
            }
        } else if is_registered(entries, other_symbol, other_account) {
            let j = index_of(entries, other_symbol, other_account);
            let j1 = if j < k { j } else { j - 1 };
            assert(next[j1] == entries[j]);
            lemma_index_unique(next, j1, other_symbol, other_account);
        } else if is_registered(next, other_symbol, other_account) {
            let j = index_of(next, other_symbol, other_account);
            let j0 = if j < k { j } else { j + 1 };
            assert(next[j] == entries[j0]);
            assert(has_key(entries[j0], other_symbol, other_account));
        }
    }
}

/// A deposit that succeeds raises the holdings under its symbol by exactly
/// the amount, and leaves the holdings under every other symbol alone.
pub proof fn lemma_deposit_holdings(
    entries: Seq<EntryView>,
    symbol: Seq<char>,
    account: Seq<char>,
    amount: u128,
    other_symbol: Seq<char>,
)
    requires
        deposit_spec(entries, symbol, account, amount) is Ok,
    ensures
        holdings(deposit_spec(entries, symbol, account, amount)->Ok_0, other_symbol) == holdings(
            entries,
            other_symbol,
        ) + if other_symbol == symbol {
            amount as nat
        } else {
            0
        },
{
    let balance = balance_of(entries, symbol, account)->Some_0;
    lemma_with_balance_holdings(entries, symbol, account, (balance + amount) as u128, other_symbol);
}

/// A withdrawal that succeeds lowers the holdings under its symbol by
/// exactly the amount, and leaves the holdings under every other symbol
/// alone.
pub proof fn lemma_withdraw_holdings(
    entries: Seq<EntryView>,
    symbol: Seq<char>,
    account: Seq<char>,
    amount: u128,
    other_symbol: Seq<char>,
)
    requires
        withdraw_spec(entries, symbol, account, amount) is Ok,
    ensures
        holdings(withdraw_spec(entries, symbol, account, amount)->Ok_0, other_symbol) + if other_symbol
            == symbol {
            amount as nat
        } else {
            0
        } == holdings(entries, other_symbol),
{
    let balance = balance_of(entries, symbol, account)->Some_0;
    lemma_with_balance_holdings(entries, symbol, account, (balance - amount) as u128, other_symbol);
    lemma_balance_within_holdings(entries, symbol, account);
}

/// A transfer that succeeds conserves the holdings under every symbol: what
/// the sender loses the receiver gains.
pub proof fn lemma_transfer_conserves(
    entries: Seq<EntryView>,
    symbol: Seq<char>,
    sender: Seq<char>,
    receiver: Seq<char>,
    amount: u128,
    other_symbol: Seq<char>,
)
    requires
        transfer_spec(entries, symbol, sender, receiver, amount) is Ok,
    ensures
        holdings(transfer_spec(entries, symbol, sender, receiver, amount)->Ok_0, other_symbol)
            == holdings(entries, other_symbol),
{
    let debited = withdraw_spec(entries, symbol, sender, amount)->Ok_0;
    lemma_withdraw_holdings(entries, symbol, sender, amount, other_symbol);
    lemma_deposit_holdings(debited, symbol, receiver, amount, other_symbol);
}

/// A transfer that succeeds lowers the sender's balance by the amount,
/// raises the receiver's by the amount, and changes no other balance.
pub proof fn lemma_transfer_balances(
    entries: Seq<EntryView>,
    symbol: Seq<char>,
    sender: Seq<char>,
    receiver: Seq<char>,
    amount: u128,
    other_symbol: Seq<char>,
    other_account: Seq<char>,
)
    requires
        distinct_keys(entries),
        transfer_spec(entries, symbol, sender, receiver, amount) is Ok,
    ensures
        distinct_keys(transfer_spec(entries, symbol, sender, receiver, amount)->Ok_0),
        balance_of(entries, symbol, sender) is Some,
        balance_of(entries, symbol, receiver) is Some,
        balance_of(
            transfer_spec(entries, symbol, sender, receiver, amount)->Ok_0,
            other_symbol,
            other_account,
        ) == if other_symbol == symbol && other_account == sender {
            Some((balance_of(entries, symbol, sender)->Some_0 - amount) as u128)
        } else if other_symbol == symbol && other_account == receiver {
            Some((balance_of(entries, symbol, receiver)->Some_0 + amount) as u128)
        } else {
            balance_of(entries, other_symbol, other_account)
        },
{
    let held = balance_of(entries, symbol, sender)->Some_0;
    let debited = with_balance(entries, symbol, sender, (held - amount) as u128);
    lemma_with_balance_distinct(entries, symbol, sender, (held - amount) as u128);
    lemma_with_balance_lookup(entries, symbol, sender, (held - amount) as u128, symbol, receiver);
    lemma_with_balance_lookup(
        entries,
        symbol,
        sender,
        (held - amount) as u128,
        other_symbol,
        other_account,
    );
    let had = balance_of(debited, symbol, receiver)->Some_0;
    lemma_with_balance_distinct(debited, symbol, receiver, (had + amount) as u128);
    lemma_with_balance_lookup(
        debited,
        symbol,
        receiver,
        (had + amount) as u128,
        other_symbol,
        other_account,
    );
}

/// A transfer from an account to itself fails with `SameAccountTransfer`,
/// whatever the ledger holds and whatever the amount.
pub proof fn lemma_transfer_to_self_fails(
    entries: Seq<EntryView>,
    symbol: Seq<char>,
    account: Seq<char>,
    amount: u128,
)
    ensures
        transfer_spec(entries, symbol, account, account, amount) == Err::<
            Seq<EntryView>,
            TokenError,
        >(TokenError::SameAccountTransfer),
{
}

/// One balance entry of the ledger.
pub struct BalanceEntry {
    pub symbol: String,
    pub account: String,
    pub balance: u128,
}

impl View for BalanceEntry {
    type V = EntryView;

    open spec fn view(&self) -> EntryView {
        EntryView { symbol: self.symbol@, account: self.account@, balance: self.balance }
    }
}

/// The balance ledger: for each token symbol and account, the units held.
/// An account has an entry under a symbol from its registration until it
/// leaves; an entry of zero is an entry.
pub struct Ledger {
    entries: Vec<BalanceEntry>,
}

impl View for Ledger {
    type V = Seq<EntryView>;

    closed spec fn view(&self) -> Seq<EntryView> {
        self.entries@.map_values(|e: BalanceEntry| e@)
    }
}

/// The entries of a list, as the contracts see them.
pub open spec fn entry_views(entries: Seq<BalanceEntry>) -> Seq<EntryView> {
    entries.map_values(|e: BalanceEntry| e@)
}

/// The holdings of the first entries never exceed the holdings of all.
proof fn lemma_holdings_of_prefix(entries: Seq<EntryView>, n: int, symbol: Seq<char>)
    requires
        0 <= n <= entries.len(),
    ensures
        holdings(entries.take(n), symbol) <= holdings(entries, symbol),
    decreases entries.len() - n,
{
    if n < entries.len() {
        lemma_holdings_of_prefix(entries, n + 1, symbol);
        assert(entries.take(n + 1).drop_last() =~= entries.take(n));
    } else {
        assert(entries.take(n) =~= entries);
    }
}

/// Where no entry is kept under a symbol, nothing is held under it.
pub proof fn lemma_holdings_of_unused_symbol(entries: Seq<EntryView>, symbol: Seq<char>)
    requires
        forall|i: int| 0 <= i < entries.len() ==> (#[trigger] entries[i]).symbol != symbol,
    ensures
        holdings(entries, symbol) == 0,
    decreases entries.len(),
{
    if entries.len() > 0 {
        lemma_holdings_of_unused_symbol(entries.drop_last(), symbol);
    }
}

/// Whether the balances held under `symbol` in `entries` add up to `limit`
/// at most.
pub fn holdings_within(entries: &Vec<BalanceEntry>, symbol: &String, limit: u128) -> (within: bool)
    ensures
        within == (holdings(entry_views(entries@), symbol@) <= limit),
{
    let ghost views = entry_views(entries@);
    let mut sum: u128 = 0;
    let mut i: usize = 0;
    while i < entries.len()
        invariant
            i <= entries.len(),
            views == entry_views(entries@),
            sum == holdings(views.take(i as int), symbol@),
            sum <= limit,
        decreases entries.len() - i,
    {
        proof {
            assert(views.take(i + 1).drop_last() =~= views.take(i as int));
            assert(views.take(i + 1).last() == views[i as int]);
            lemma_holdings_of_prefix(views, i + 1, symbol@);
        }
        if entries[i].symbol == *symbol {
            if entries[i].balance > limit - sum {
                return false;
            }
            sum = sum + entries[i].balance;
        }
        i += 1;
    }
    assert(views.take(i as int) =~= views);
    true
}

impl Ledger {
    /// The ledger's invariant: an account has at most one entry per symbol.
    pub open spec fn wf(&self) -> bool {
        distinct_keys(self@)
    }

    /// A ledger without entries.
    pub fn new() -> (ledger: Ledger)
        ensures
            ledger@ == Seq::<EntryView>::empty(),
            ledger.wf(),
    {
        let ledger = Ledger { entries: Vec::new() };
        assert(ledger@ =~= Seq::<EntryView>::empty());
        ledger
    }

    /// The place of the entry of `account` under `symbol`.
    fn find(&self, symbol: &String, account: &String) -> (place: Option<usize>)
        ensures
            match place {
                Some(i) => i < self@.len() && has_key(self@[i as int], symbol@, account@),
                None => !is_registered(self@, symbol@, account@),
            },
    {
        let mut i: usize = 0;
        while i < self.entries.len()
            invariant
                i <= self.entries.len(),
                forall|j: int| 0 <= j < i ==> !has_key(#[trigger] self@[j], symbol@, account@),
            decreases self.entries.len() - i,
        {
            if self.entries[i].symbol == *symbol && self.entries[i].account == *account {
                return Some(i);
            }
            i += 1;
        }
        None
    }
    /// Whether `account` is registered under `symbol`.
    pub fn is_registered(&self, symbol: &String, account: &String) -> (registered: bool)
        ensures
            registered == is_registered(self@, symbol@, account@),
    {
        self.find(symbol, account).is_some()
    }

    /// The balance of `account` under `symbol`, or `None` where the account
    /// is not registered.
    pub fn st_get_balance(&self, symbol: &String, account: &String) -> (balance: Option<u128>)
        requires
            self.wf(),
        ensures
            balance == balance_of(self@, symbol@, account@),
    {
        match self.find(symbol, account) {
            Some(i) => {
                proof {
                    lemma_index_unique(self@, i as int, symbol@, account@);
                }
                Some(self.entries[i].balance)
            },
            None => None,
        }
    }

    /// Sets the balance of `account` under `symbol`, registering the account
    /// where it had no entry.
    pub fn st_set_balance(&mut self, symbol: &String, account: &String, balance: u128)
        requires
            old(self).wf(),
        ensures
            final(self)@ == with_balance(old(self)@, symbol@, account@, balance),
            final(self).wf(),
    {
        proof {
            lemma_with_balance_distinct(self@, symbol@, account@, balance);
        }
        match self.find(symbol, account) {
            Some(i) => {
                proof {
                    lemma_index_unique(self@, i as int, symbol@, account@);
                }
                self.entries[i].balance = balance;
            },
            None => {
                self.entries.push(
                    BalanceEntry { symbol: symbol.clone(), account: account.clone(), balance },
                );
            },
        }
        assert(self@ =~= with_balance(old(self)@, symbol@, account@, balance));
    }

    /// Adds `amount` to the balance of `account` under `symbol`. The account
    /// must be registered, else the deposit fails with `AccountNotRegistered`;
    /// a balance beyond `u128::MAX` fails with `BalanceOverflow`. A deposit
    /// that fails changes nothing.
    pub fn deposit(&mut self, symbol: &String, account: &String, amount: u128) -> (done: Result<
        (),
        TokenError,
    >)
        requires
            old(self).wf(),
        ensures
            final(self).wf(),
            match done {
                Ok(()) => deposit_spec(old(self)@, symbol@, account@, amount) == Ok::<
                    Seq<EntryView>,
                    TokenError,
                >(final(self)@),
                Err(e) => deposit_spec(old(self)@, symbol@, account@, amount) == Err::<
                    Seq<EntryView>,
                    TokenError,
                >(e) && final(self)@ == old(self)@,
            },
    {
        let balance = match self.st_get_balance(symbol, account) {
            Some(balance) => balance,
            None => {
                return Err(TokenError::AccountNotRegistered);
            },
        };
        match balance.checked_add(amount) {
            Some(new_balance) => {
                self.st_set_balance(symbol, account, new_balance);
                Ok(())
            },
            None => Err(TokenError::BalanceOverflow),
        }
    }

    /// Takes `amount` from the balance of `account` under `symbol`. The
    /// account must be registered, else the withdrawal fails with
    /// `AccountNotRegistered`; a balance below `amount` fails with
    /// `InsufficientBalance`. A withdrawal that fails changes nothing.
    pub fn withdraw(&mut self, symbol: &String, account: &String, amount: u128) -> (done: Result<
        (),
        TokenError,
    >)
        requires
            old(self).wf(),
        ensures
            final(self).wf(),
            match done {
                Ok(()) => withdraw_spec(old(self)@, symbol@, account@, amount) == Ok::<
                    Seq<EntryView>,
                    TokenError,
                >(final(self)@),
                Err(e) => withdraw_spec(old(self)@, symbol@, account@, amount) == Err::<
                    Seq<EntryView>,
                    TokenError,
                >(e) && final(self)@ == old(self)@,
            },
    {
        let balance = match self.st_get_balance(symbol, account) {
            Some(balance) => balance,
            None => {
                return Err(TokenError::AccountNotRegistered);
            },
        };
        match balance.checked_sub(amount) {
            Some(new_balance) => {
                self.st_set_balance(symbol, account, new_balance);
                Ok(())
            },
            None => Err(TokenError::InsufficientBalance),
        }
    }

    /// Moves `amount` under `symbol` from `sender` to `receiver`. Sender and
    /// receiver must differ, whatever they hold, else the transfer fails with
    /// `SameAccountTransfer`. Otherwise the amount is withdrawn from the
    /// sender and deposited with the receiver; if either half fails, the
    /// transfer fails with that half's error and changes nothing.
    pub fn transfer(
        &mut self,
        symbol: &String,
        sender: &String,
        receiver: &String,
        amount: u128,
    ) -> (done: Result<(), TokenError>)
        requires
            old(self).wf(),
        ensures
            final(self).wf(),
            match done {
                Ok(()) => transfer_spec(old(self)@, symbol@, sender@, receiver@, amount) == Ok::<
                    Seq<EntryView>,
                    TokenError,
                >(final(self)@),
                Err(e) => transfer_spec(old(self)@, symbol@, sender@, receiver@, amount) == Err::<
                    Seq<EntryView>,
                    TokenError,
                >(e) && final(self)@ == old(self)@,
            },
    {
        if *sender == *receiver {
            return Err(TokenError::SameAccountTransfer);
        }
        let held = match self.st_get_balance(symbol, sender) {
            Some(balance) => balance,
            None => {
                return Err(TokenError::AccountNotRegistered);
            },
        };
        if held < amount {
            return Err(TokenError::InsufficientBalance);
        }
        proof {
            lemma_with_balance_lookup(
                self@,
                symbol@,
                sender@,
                (held - amount) as u128,
                symbol@,
                receiver@,
            );
        }
        let credited = match self.st_get_balance(symbol, receiver) {
            Some(balance) => match balance.checked_add(amount) {
                Some(credited) => credited,
                None => {
                    return Err(TokenError::BalanceOverflow);
                },
            },
            None => {
                return Err(TokenError::AccountNotRegistered);
            },
        };
        self.st_set_balance(symbol, sender, held - amount);
        self.st_set_balance(symbol, receiver, credited);
        Ok(())
    }

    /// Registers `account` under `symbol` with a balance of zero. An account
    /// that is registered already fails with `AlreadyRegistered`.
    pub fn register(&mut self, symbol: &String, account: &String) -> (done: Result<(), TokenError>)
        requires
            old(self).wf(),
        ensures
            final(self).wf(),
            match done {
                Ok(()) => register_spec(old(self)@, symbol@, account@) == Ok::<
                    Seq<EntryView>,
                    TokenError,
                >(final(self)@),
                Err(e) => register_spec(old(self)@, symbol@, account@) == Err::<
                    Seq<EntryView>,
                    TokenError,
                >(e) && final(self)@ == old(self)@,
            },
    {
        if self.is_registered(symbol, account) {
            return Err(TokenError::AlreadyRegistered);
        }
        self.st_set_balance(symbol, account, 0);
        Ok(())
    }

    /// Removes the entry of `account` under `symbol`. An account that is not
    /// registered fails with `AccountNotRegistered`; one that still holds
    /// tokens fails with `NonZeroBalanceOnDeregister` and keeps its entry.
    pub fn deregister(&mut self, symbol: &String, account: &String) -> (done: Result<
        (),
        TokenError,
    >)
        requires
            old(self).wf(),
        ensures
            final(self).wf(),
            match done {
                Ok(()) => deregister_spec(old(self)@, symbol@, account@) == Ok::<
                    Seq<EntryView>,
                    TokenError,
                >(final(self)@),
                Err(e) => deregister_spec(old(self)@, symbol@, account@) == Err::<
                    Seq<EntryView>,
                    TokenError,
                >(e) && final(self)@ == old(self)@,
            },
    {
        match self.find(symbol, account) {
            None => Err(TokenError::AccountNotRegistered),
            Some(i) => {
                proof {
                    lemma_index_unique(self@, i as int, symbol@, account@);
                    lemma_without_entry_lookup(self@, symbol@, account@, symbol@, account@);
                }
                if self.entries[i].balance != 0 {
                    return Err(TokenError::NonZeroBalanceOnDeregister);
                }
                self.entries.remove(i);
                assert(self@ =~= without_entry(old(self)@, symbol@, account@));
                Ok(())
            },
        }
    }
    /// Removes the entry of `account` under `symbol`, whatever it holds, and
    /// says what it held; `None` where there was no entry.
    pub fn remove(&mut self, symbol: &String, account: &String) -> (held: Option<u128>)
        requires
            old(self).wf(),
        ensures
            final(self).wf(),
            held == balance_of(old(self)@, symbol@, account@),
            final(self)@ == without_entry(old(self)@, symbol@, account@),
    {
        proof {
            lemma_without_entry_lookup(self@, symbol@, account@, symbol@, account@);
        }
        match self.find(symbol, account) {
            None => None,
            Some(i) => {
                proof {
                    lemma_index_unique(self@, i as int, symbol@, account@);
                }
                let entry = self.entries.remove(i);
                assert(self@ =~= without_entry(old(self)@, symbol@, account@));
                Some(entry.balance)
            },
        }
    }

    /// A copy of all entries, in the order in which the ledger keeps them.
    pub fn entries(&self) -> (copy: Vec<BalanceEntry>)
        ensures
            copy@.map_values(|e: BalanceEntry| e@) == self@,
    {
        let mut copy: Vec<BalanceEntry> = Vec::new();
        let mut i: usize = 0;
        while i < self.entries.len()
            invariant
                i <= self.entries.len(),
                copy@.len() == i,
                forall|j: int| 0 <= j < i ==> (#[trigger] copy@[j])@ == self@[j],
            decreases self.entries.len() - i,
        {
            let entry = &self.entries[i];
            copy.push(
                BalanceEntry {
                    symbol: entry.symbol.clone(),
                    account: entry.account.clone(),
                    balance: entry.balance,
                },
            );
            i += 1;
        }
        assert(copy@.map_values(|e: BalanceEntry| e@) =~= self@);
        copy
    }

    /// The ledger that holds exactly `entries`, or `None` where two of them
    /// are for the same account under the same symbol.
    pub fn from_entries(entries: Vec<BalanceEntry>) -> (ledger: Option<Ledger>)
        ensures
            match ledger {
                Some(l) => l.wf() && l@ == entries@.map_values(|e: BalanceEntry| e@),
                None => !distinct_keys(entries@.map_values(|e: BalanceEntry| e@)),
            },
    {
        let ledger = Ledger { entries };
        let mut i: usize = 0;
        while i < ledger.entries.len()
            invariant
                i <= ledger.entries.len(),
                ledger.entries@ == entries@,
                forall|a: int, b: int|
                    0 <= a < i && 0 <= b < ledger@.len() && a != b ==> !has_key(
                        #[trigger] ledger@[a],
                        (#[trigger] ledger@[b]).symbol,
                        ledger@[b].account,
                    ),
            decreases ledger.entries.len() - i,
        {
            let mut j: usize = i + 1;
            while j < ledger.entries.len()
                invariant
                    i < j <= ledger.entries.len(),
                    ledger.entries@ == entries@,
                    forall|b: int|
                        i < b < j ==> !has_key(
                            ledger@[i as int],
                            (#[trigger] ledger@[b]).symbol,
                            ledger@[b].account,
                        ),
                decreases ledger.entries.len() - j,
            {
                if ledger.entries[i].symbol == ledger.entries[j].symbol
                    && ledger.entries[i].account == ledger.entries[j].account {
                    assert(has_key(
                        ledger@[i as int],
                        ledger@[j as int].symbol,
                        ledger@[j as int].account,
                    ));
                    assert(ledger@ =~= entries@.map_values(|e: BalanceEntry| e@));
                    return None;
                }
                j += 1;
            }
            assert forall|a: int, b: int|
                0 <= a < i + 1 && 0 <= b < ledger@.len() && a != b implies !has_key(
                #[trigger] ledger@[a],
                (#[trigger] ledger@[b]).symbol,
                ledger@[b].account,
            ) by {
                if a == i && b < i {
                    assert(!has_key(ledger@[b], ledger@[a].symbol, ledger@[a].account));
                }
            }
            i += 1;
        }
        Some(ledger)
    }
}

} // verus!
