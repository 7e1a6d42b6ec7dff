use vstd::prelude::*;
use crate::error::TokenError;
use crate::guard::{
    assert_one_yocto, assert_self, check_allowance, handler_allowance, GAS_FOR_RESOLVE_TRANSFER,
    ONE_YOCTO,
};
use crate::ledger::{
    balance_of, distinct_keys, holdings, lemma_balance_within_holdings, lemma_transfer_conserves,
    lemma_with_balance_distinct, lemma_with_balance_holdings, lemma_with_balance_lookup,
    transfer_spec, with_balance, EntryView,
};
use crate::registry::{
    burn_spec, lemma_burn_conserves, lemma_mint_conserves, mint_spec, backed, distinct_symbols, lemma_with_token_lookup, supply_of, token_of, with_token,
    SocialTokens,
};
use crate::token::TokenView;

verus! {

/// How the receiver's handler ended, as the host reports it to the
/// continuation.
pub enum HandlerOutcome {
    /// The handler has not completed. Nothing is assumed of it: it is
    /// treated as a failure.
    NotReady,
    /// The handler completed and answered with these bytes.
    Successful(Vec<u8>),
    /// The handler failed.
    Failed,
}

/// The terminal state of a transfer with callback.
#[derive(Clone, Copy, Debug, PartialEq, Eq, Structural)]
pub enum Reconciled {
    /// The receiver keeps the whole amount.
    Full,
    /// Part of the amount, or all of it, went back to the sender.
    PartialRefund,
    /// The sender had left: what the receiver gave back was destroyed.
    Burned,
}

/// How a transfer with callback was reconciled.
#[derive(Clone, Copy, Debug, PartialEq, Eq, Structural)]
pub struct Settlement {
    /// The terminal state.
    pub outcome: Reconciled,
    /// What was taken back from the receiver.
    pub refund: u128,
    /// What the receiver retained of the amount transferred.
    pub retained: u128,
}

/// The notification that a transfer with callback asks the host to send to
/// the receiver's handler, and the allowance for the continuation that
/// reconciles the transfer afterwards.
pub struct ReceiverCall {
    pub receiver_id: String,
    pub token_symbol: String,
    pub sender_id: String,
    pub amount: u128,
    pub msg: String,
    pub gas_for_handler: u64,
    pub gas_for_resolve: u64,
}

/// The amount that a handler's answer spells, where it spells one: what
/// `serde_json::from_slice` yields for it at the type
/// `near_sdk::json_types::U128`.
pub uninterp spec fn json_amount(response: Seq<u8>) -> Option<u128>;

/// Calls `serde_json::from_slice` at the type `near_sdk::json_types::U128`,
/// which reads a JSON string and parses its text as a decimal `u128`. The
/// answer depends on the bytes alone; bytes that do not parse yield `None`.
#[verifier::external_body]
fn parse_amount(response: &[u8]) -> (parsed: Option<u128>)
    ensures
        parsed == json_amount(response@),
{
    match serde_json::from_slice::<near_sdk::json_types::U128>(response) {
        Ok(amount) => Some(amount.0),
        Err(_) => None,
    }
}

/// The smaller of two amounts.
pub open spec fn min_amount(a: u128, b: u128) -> u128 {
    if a <= b {
        a
    } else {
        b
    }
}

/// The part of `amount` that the receiver declines, given what its answer
/// spelled: the amount spelled, but no more than `amount`; all of `amount`
/// where there was no answer or none that spells an amount.
pub open spec fn declined(amount: u128, answer: Option<u128>) -> u128 {
    match answer {
        Some(unused) => min_amount(amount, unused),
        None => amount,
    }
}

/// The amount that the handler's outcome spells, if it spells one.
pub open spec fn answer_of(outcome: HandlerOutcome) -> Option<u128> {
    match outcome {
        HandlerOutcome::Successful(response) => json_amount(response@),
        _ => None,
    }
}

/// What is taken back from the receiver: the amount declined, but no more
/// than the receiver holds now; nothing from a receiver without an entry.
pub open spec fn refund_of(
    entries: Seq<EntryView>,
    symbol: Seq<char>,
    receiver: Seq<char>,
    unused_amount: u128,
) -> u128 {
    match balance_of(entries, symbol, receiver) {
        Some(held) => min_amount(held, unused_amount),
        None => 0,
    }
}

/// What reconciliation does to registry and ledger, and how it ends.
///
/// Where nothing can be taken back the transfer stands in full. Otherwise
/// the refund leaves the receiver's balance; it joins the sender's balance
/// where the sender still has an entry, and else leaves the supply.
pub open spec fn settle_spec(
    tokens: Seq<TokenView>,
    entries: Seq<EntryView>,
    symbol: Seq<char>,
    sender: Seq<char>,
    receiver: Seq<char>,
    amount: u128,
    unused_amount: u128,
) -> (Seq<TokenView>, Seq<EntryView>, Settlement) {
    let refund = refund_of(entries, symbol, receiver, unused_amount);
    if refund == 0 {
        (tokens, entries, Settlement { outcome: Reconciled::Full, refund: 0, retained: amount })
    } else {
        let held = balance_of(entries, symbol, receiver)->Some_0;
        let debited = with_balance(entries, symbol, receiver, (held - refund) as u128);
        let retained = (amount - refund) as u128;
        match balance_of(debited, symbol, sender) {
            Some(had) => (
                tokens,
                with_balance(debited, symbol, sender, (had + refund) as u128),
                Settlement { outcome: Reconciled::PartialRefund, refund, retained },
            ),
            None => (
                match token_of(tokens, symbol) {
                    Some(token) => with_token(
                        tokens,
                        TokenView { supply: (token.supply - refund) as u128, ..token },
                    ),
                    None => tokens,
                },
                debited,
                Settlement { outcome: Reconciled::Burned, refund, retained },
            ),
        }
    }
}

/// The part of `amount` that the receiver declines, given what its answer
/// spelled.
pub fn unused_from_answer(amount: u128, answer: Option<u128>) -> (unused_amount: u128)
    ensures
        unused_amount == declined(amount, answer),
{
    match answer {
        Some(unused) => if amount <= unused {
            amount
        } else {
            unused
        },
        None => amount,
    }
}

/// The part of `amount` that the receiver declines, given how its handler
/// ended: a handler that failed or did not complete declines everything,
/// and so does one whose answer spells no amount.
pub fn unused_amount(amount: u128, outcome: &HandlerOutcome) -> (unused_amount: u128)
    ensures
        unused_amount == declined(amount, answer_of(*outcome)),
        unused_amount <= amount,
{
    match outcome {
        HandlerOutcome::Successful(response) => unused_from_answer(
            amount,
            parse_amount(response.as_slice()),
        ),
        HandlerOutcome::Failed => unused_from_answer(amount, None),
        HandlerOutcome::NotReady => unused_from_answer(amount, None),
    }
}

/// What a transfer through the contract does: it must carry the one-unit
/// payment; the sender is the one named, or the caller where none is named.
pub open spec fn st_transfer_spec(
    entries: Seq<EntryView>,
    caller: Seq<char>,
    attached_deposit: u128,
    symbol: Seq<char>,
    sender: Option<Seq<char>>,
    receiver: Seq<char>,
    amount: u128,
) -> Result<Seq<EntryView>, TokenError> {
    if attached_deposit != ONE_YOCTO {
        Err(TokenError::Unauthorized)
    } else {
        transfer_spec(
            entries,
            symbol,
            match sender {
                Some(id) => id,
                None => caller,
            },
            receiver,
            amount,
        )
    }
}

/// What the first phase of a transfer with callback does: it must carry the
/// one-unit payment and an allowance that covers notification and
/// reconciliation; then the amount moves from the caller to the receiver at
/// once, before the receiver is notified.
pub open spec fn st_transfer_call_spec(
    entries: Seq<EntryView>,
    caller: Seq<char>,
    attached_deposit: u128,
    prepaid_gas: u64,
    symbol: Seq<char>,
    receiver: Seq<char>,
    amount: u128,
) -> Result<Seq<EntryView>, TokenError> {
    if attached_deposit != ONE_YOCTO {
        Err(TokenError::Unauthorized)
    } else if handler_allowance(prepaid_gas) is Err {
        Err(TokenError::InsufficientAllowance)
    } else {
        transfer_spec(entries, symbol, caller, receiver, amount)
    }
}

/// Reconciliation never credits more than it debits: under every symbol the
/// supply and the holdings move together, so that where they were equal
/// they stay equal. Where the transfer stands in full nothing changes; after
/// a refund supply and holdings are what they were; after a burn both are
/// lower by exactly the refund.
pub proof fn lemma_settle_conserves(
    tokens: Seq<TokenView>,
    entries: Seq<EntryView>,
    symbol: Seq<char>,
    sender: Seq<char>,
    receiver: Seq<char>,
    amount: u128,
    unused_amount: u128,
    other_symbol: Seq<char>,
)
    requires
        distinct_symbols(tokens),
        distinct_keys(entries),
        backed(tokens, entries),
        unused_amount <= amount,
    ensures
        ({
            let next = settle_spec(tokens, entries, symbol, sender, receiver, amount, unused_amount);
            let gone: nat = if next.2.outcome == Reconciled::Burned && other_symbol == symbol {
                next.2.refund as nat
            } else {
                0
            };
            &&& distinct_symbols(next.0)
            &&& distinct_keys(next.1)
            &&& next.2.refund <= unused_amount
            &&& next.2.retained == amount - next.2.refund
            &&& next.2.outcome == Reconciled::Full ==> next.0 == tokens && next.1 == entries
                && next.2.refund == 0
            &&& next.2.outcome != Reconciled::Burned ==> next.0 == tokens
            &&& supply_of(next.0, other_symbol) + gone == supply_of(tokens, other_symbol)
            &&& holdings(next.1, other_symbol) + gone == holdings(entries, other_symbol)
        }),
{
    let refund = refund_of(entries, symbol, receiver, unused_amount);
    if refund != 0 {
        let held = balance_of(entries, symbol, receiver)->Some_0;
        let left = (held - refund) as u128;
        let debited = with_balance(entries, symbol, receiver, left);
        lemma_with_balance_distinct(entries, symbol, receiver, left);
        lemma_with_balance_holdings(entries, symbol, receiver, left, other_symbol);
        lemma_with_balance_holdings(entries, symbol, receiver, left, symbol);
        lemma_balance_within_holdings(entries, symbol, receiver);
        assert(holdings(entries, symbol) <= supply_of(tokens, symbol));
        match balance_of(debited, symbol, sender) {
            Some(had) => {
                lemma_balance_within_holdings(debited, symbol, sender);
                let raised = (had + refund) as u128;
                lemma_with_balance_distinct(debited, symbol, sender, raised);
                lemma_with_balance_holdings(debited, symbol, sender, raised, other_symbol);
            },
            None => {
                let token = token_of(tokens, symbol)->Some_0;
                let lowered = TokenView { supply: (token.supply - refund) as u128, ..token };
                lemma_with_token_lookup(tokens, lowered, other_symbol);
            },
        }
    }
}

/// Whether as many units are held under `symbol` as are in circulation.
pub open spec fn supply_is_held(
    tokens: Seq<TokenView>,
    entries: Seq<EntryView>,
    symbol: Seq<char>,
) -> bool {
    supply_of(tokens, symbol) == holdings(entries, symbol)
}

/// Conservation under transfers: where as many units are held under a
/// symbol as are in circulation, a transfer that succeeds, of whatever token,
/// leaves it so.
pub proof fn lemma_transfer_keeps_supply_held(
    tokens: Seq<TokenView>,
    entries: Seq<EntryView>,
    symbol: Seq<char>,
    sender: Seq<char>,
    receiver: Seq<char>,
    amount: u128,
    other_symbol: Seq<char>,
)
    requires
        supply_is_held(tokens, entries, other_symbol),
        transfer_spec(entries, symbol, sender, receiver, amount) is Ok,
    ensures
        supply_is_held(
            tokens,
            transfer_spec(entries, symbol, sender, receiver, amount)->Ok_0,
            other_symbol,
        ),
{
    lemma_transfer_conserves(entries, symbol, sender, receiver, amount, other_symbol);
}

/// Conservation under mints and burns: where as many units are held under
/// a symbol as are in circulation, a mint or a burn that succeeds, of
/// whatever token, leaves it so.
pub proof fn lemma_mint_and_burn_keep_supply_held(
    tokens: Seq<TokenView>,
    entries: Seq<EntryView>,
    caller: Seq<char>,
    symbol: Seq<char>,
    amount: u128,
    fractional: u128,
    other_symbol: Seq<char>,
)
    requires
        distinct_symbols(tokens),
        supply_is_held(tokens, entries, other_symbol),
    ensures
        mint_spec(tokens, entries, caller, symbol, amount, fractional) matches Ok(next)
            ==> supply_is_held(next.0, next.1, other_symbol),
        burn_spec(tokens, entries, caller, symbol, amount, fractional) matches Ok(next)
            ==> supply_is_held(next.0, next.1, other_symbol),
{
    if mint_spec(tokens, entries, caller, symbol, amount, fractional) is Ok {
        lemma_mint_conserves(tokens, entries, caller, symbol, amount, fractional, other_symbol);
    }
    if burn_spec(tokens, entries, caller, symbol, amount, fractional) is Ok {
        lemma_burn_conserves(tokens, entries, caller, symbol, amount, fractional, other_symbol);
    }
}

/// Conservation under reconciliation: where as many units are held under a
/// symbol as are in circulation, reconciliation leaves it so, however it
/// ends. After a burn both numbers are lower by exactly the refund.
pub proof fn lemma_settlement_keeps_supply_held(
    tokens: Seq<TokenView>,
    entries: Seq<EntryView>,
    symbol: Seq<char>,
    sender: Seq<char>,
    receiver: Seq<char>,
    amount: u128,
    unused_amount: u128,
    other_symbol: Seq<char>,
)
    requires
        distinct_symbols(tokens),
        distinct_keys(entries),
        backed(tokens, entries),
        unused_amount <= amount,
        supply_is_held(tokens, entries, other_symbol),
    ensures
        ({
            let next = settle_spec(tokens, entries, symbol, sender, receiver, amount, unused_amount);
            supply_is_held(next.0, next.1, other_symbol)
        }),
{
    lemma_settle_conserves(
        tokens,
        entries,
        symbol,
        sender,
        receiver,
        amount,
        unused_amount,
        other_symbol,
    );
}

/// A burn credits no account: it lowers the balance of the receiver by the
/// refund and changes no other balance.
pub proof fn lemma_burn_credits_no_one(
    tokens: Seq<TokenView>,
    entries: Seq<EntryView>,
    symbol: Seq<char>,
    sender: Seq<char>,
    receiver: Seq<char>,
    amount: u128,
    unused_amount: u128,
    other_symbol: Seq<char>,
    other_account: Seq<char>,
)
    requires
        distinct_keys(entries),
        settle_spec(tokens, entries, symbol, sender, receiver, amount, unused_amount).2.outcome
            == Reconciled::Burned,
    ensures
        ({
            let next = settle_spec(tokens, entries, symbol, sender, receiver, amount, unused_amount);
            balance_of(next.1, other_symbol, other_account) == if other_symbol == symbol
                && other_account == receiver {
                Some((balance_of(entries, symbol, receiver)->Some_0 - next.2.refund) as u128)
            } else {
                balance_of(entries, other_symbol, other_account)
            }
        }),
{
    let refund = refund_of(entries, symbol, receiver, unused_amount);
    let held = balance_of(entries, symbol, receiver)->Some_0;
    lemma_with_balance_lookup(
        entries,
        symbol,
        receiver,
        (held - refund) as u128,
        other_symbol,
        other_account,
    );
}

impl SocialTokens {
    /// Moves `amount` of `token_symbol` from `sender_id` to `receiver_id`,
    /// as the ledger's `transfer` does: both halves or none. The memo is a
    /// note for the record and changes nothing.
    pub fn internal_transfer(
        &mut self,
        token_symbol: &String,
        sender_id: &String,
        receiver_id: &String,
        amount: u128,
        memo: Option<String>,
    ) -> (done: Result<(), TokenError>)
        requires
            old(self).wf(),
        ensures
            final(self).wf(),
            final(self).same_settings(old(self)),
            final(self).tokens() == old(self).tokens(),
            match done {
                Ok(()) => transfer_spec(
                    old(self).balances(),
                    token_symbol@,
                    sender_id@,
                    receiver_id@,
                    amount,
                ) == Ok::<Seq<EntryView>, TokenError>(final(self).balances()),
                Err(e) => transfer_spec(
                    old(self).balances(),
                    token_symbol@,
                    sender_id@,
                    receiver_id@,
                    amount,
                ) == Err::<Seq<EntryView>, TokenError>(e) && final(self).balances() == old(self).balances(),
            },
    {
        let done = self.st_to_accounts.transfer(token_symbol, sender_id, receiver_id, amount);
        proof {
            if done is Ok {
                assert forall|symbol: Seq<char>| #[trigger]
                    holdings(self.balances(), symbol) <= supply_of(self.tokens(), symbol) by {
                    lemma_transfer_conserves(
                        old(self).balances(),
                        token_symbol@,
                        sender_id@,
                        receiver_id@,
                        amount,
                        symbol,
                    );
                }
            }
        }
        done
    }

    /// Reconciles a transfer with callback of `amount` from `sender_id` to
    /// `receiver_id`, of which the receiver declines `unused_amount`.
    ///
    /// What is taken back is the amount declined, but no more than the
    /// receiver holds now: the receiver may have spent what it got. Where
    /// that is nothing the transfer stands in full. Otherwise the refund
    /// leaves the receiver's balance; where the sender still has an entry it
    /// joins the sender's balance, and where the sender has left it is
    /// destroyed: the token's supply drops by the refund and no account is
    /// credited. The result says how the transfer ended, what was taken back
    /// and what the receiver retained. Reconciliation never fails.
    pub fn settle(
        &mut self,
        token_symbol: &String,
        sender_id: &String,
        receiver_id: &String,
        amount: u128,
        unused_amount: u128,
    ) -> (settlement: Settlement)
        requires
            old(self).wf(),
            unused_amount <= amount,
        ensures
            final(self).wf(),
            final(self).same_settings(old(self)),
            (final(self).tokens(), final(self).balances(), settlement) == settle_spec(
                old(self).tokens(),
                old(self).balances(),
                token_symbol@,
                sender_id@,
                receiver_id@,
                amount,
                unused_amount,
            ),
    {
        proof {
            assert forall|symbol: Seq<char>| #[trigger]
                holdings(
                    settle_spec(
                        self.tokens(),
                        self.balances(),
                        token_symbol@,
                        sender_id@,
                        receiver_id@,
                        amount,
                        unused_amount,
                    ).1,
                    symbol,
                ) <= supply_of(
                    settle_spec(
                        self.tokens(),
                        self.balances(),
                        token_symbol@,
                        sender_id@,
                        receiver_id@,
                        amount,
                        unused_amount,
                    ).0,
                    symbol,
                ) by {
                lemma_settle_conserves(
                    self.tokens(),
                    self.balances(),
                    token_symbol@,
                    sender_id@,
                    receiver_id@,
                    amount,
                    unused_amount,
                    symbol,
                );
            }
            lemma_settle_conserves(
                self.tokens(),
                self.balances(),
                token_symbol@,
                sender_id@,
                receiver_id@,
                amount,
                unused_amount,
                token_symbol@,
            );
        }
        let full = Settlement { outcome: Reconciled::Full, refund: 0, retained: amount };
        if unused_amount == 0 {
            return full;
        }
        let receiver_balance = match self.st_to_accounts.st_get_balance(token_symbol, receiver_id) {
            Some(held) => held,
            None => 0,
        };
        if receiver_balance == 0 {
            return full;
        }
        let refund_amount = if receiver_balance <= unused_amount {
            receiver_balance
        } else {
            unused_amount
        };
        proof {
            lemma_balance_within_holdings(self.balances(), token_symbol@, receiver_id@);
            lemma_with_balance_holdings(
                self.balances(),
                token_symbol@,
                receiver_id@,
                (receiver_balance - refund_amount) as u128,
                token_symbol@,
            );
            assert(holdings(self.balances(), token_symbol@) <= supply_of(
                self.tokens(),
                token_symbol@,
            ));
        }
        self.st_to_accounts.st_set_balance(
            token_symbol,
            receiver_id,
            receiver_balance - refund_amount,
        );
        match self.st_to_accounts.st_get_balance(token_symbol, sender_id) {
            Some(sender_balance) => {
                proof {
                    lemma_balance_within_holdings(self.balances(), token_symbol@, sender_id@);
                }
                self.st_to_accounts.st_set_balance(
                    token_symbol,
                    sender_id,
                    sender_balance + refund_amount,
                );
                Settlement {
                    outcome: Reconciled::PartialRefund,
                    refund: refund_amount,
                    retained: amount - refund_amount,
                }
            },
            None => {
                match self.find_token_place(token_symbol) {
                    Some(i) => {
                        let supply = self.social_tokens[i].supply;
                        self.social_tokens[i].supply = supply - refund_amount;
                        proof {
                            let lowered = TokenView {
                                supply: (supply - refund_amount) as u128,
                                ..old(self).tokens()[i as int]
                            };
                            assert(self.tokens() =~= with_token(old(self).tokens(), lowered));
                        }
                    },
                    None => {},
                }
                Settlement {
                    outcome: Reconciled::Burned,
                    refund: refund_amount,
                    retained: amount - refund_amount,
                }
            },
        }
    }

    /// The continuation of a transfer with callback: reconciles the transfer
    /// of `amount` from `sender_id` to `receiver_id` according to how the
    /// receiver's handler ended. Only the contract may call it on itself,
    /// else it is refused with `Unauthorized` and changes nothing. A handler
    /// that failed or did not complete declines everything; one that
    /// answered declines what its answer spells, at most `amount`, and
    /// everything where the answer spells no amount. See `settle` for what
    /// follows.
    pub fn st_resolve_transfer(
        &mut self,
        predecessor_id: &String,
        current_id: &String,
        token_symbol: String,
        sender_id: String,
        receiver_id: String,
        amount: u128,
        outcome: &HandlerOutcome,
    ) -> (resolved: Result<Settlement, TokenError>)
        requires
            old(self).wf(),
        ensures
            final(self).wf(),
            final(self).same_settings(old(self)),
            match resolved {
                Ok(settlement) => predecessor_id@ == current_id@ && (
                    final(self).tokens(),
                    final(self).balances(),
                    settlement,
                ) == settle_spec(
                    old(self).tokens(),
                    old(self).balances(),
                    token_symbol@,
                    sender_id@,
                    receiver_id@,
                    amount,
                    declined(amount, answer_of(*outcome)),
                ),
                Err(e) => predecessor_id@ != current_id@ && e == TokenError::Unauthorized && final(self).unchanged(old(self)),
            },
    {
        match assert_self(predecessor_id, current_id) {
            Err(e) => {
                return Err(e);
            },
            Ok(()) => {},
        }
        let unused = unused_amount(amount, outcome);
        Ok(self.settle(&token_symbol, &sender_id, &receiver_id, amount, unused))
    }
}

/// What the social-token contract offers to holders of tokens: transfers,
/// with and without a callback, and the queries on tokens and balances.
pub trait SocialTokensCore: Sized {
    /// Whether the state is one that the operations accept.
    spec fn sound(&self) -> bool;

    /// The token registry.
    spec fn registry(&self) -> Seq<TokenView>;

    /// The balance ledger.
    spec fn holders(&self) -> Seq<EntryView>;

    /// Transfers `amount` of `token_symbol` to `receiver_id`, from
    /// `sender_id` or, where none is named, from the caller. The call must
    /// carry exactly the one-unit payment, else it is refused with
    /// `Unauthorized` before the ledger is touched. A transfer that fails
    /// changes nothing.
    fn st_transfer(
        &mut self,
        caller: &String,
        attached_deposit: u128,
        token_symbol: String,
        sender_id: Option<String>,
        receiver_id: String,
        amount: u128,
        memo: Option<String>,
    ) -> (done: Result<(), TokenError>)
        requires
            old(self).sound(),
        ensures
            final(self).sound(),
            final(self).registry() == old(self).registry(),
            match done {
                Ok(()) => st_transfer_spec(
                    old(self).holders(),
                    caller@,
                    attached_deposit,
                    token_symbol@,
                    match sender_id {
                        Some(id) => Some(id@),
                        None => None,
                    },
                    receiver_id@,
                    amount,
                ) == Ok::<Seq<EntryView>, TokenError>(final(self).holders()),
                Err(e) => st_transfer_spec(
                    old(self).holders(),
                    caller@,
                    attached_deposit,
                    token_symbol@,
                    match sender_id {
                        Some(id) => Some(id@),
                        None => None,
                    },
                    receiver_id@,
                    amount,
                ) == Err::<Seq<EntryView>, TokenError>(e) && final(self).holders() == old(self).holders(),
            },
    ;

    /// Begins a transfer with callback: moves `amount` of `token_symbol`
    /// from the caller to `receiver_id` at once, and says which notification
    /// the host is to send to the receiver's handler, with `msg` for the
    /// handler and the allowances for handler and reconciliation.
    ///
    /// The call must carry exactly the one-unit payment (`Unauthorized`) and
    /// an allowance that covers notification and reconciliation
    /// (`InsufficientAllowance`); both are checked before the ledger is
    /// touched. Once the amount has moved it cannot be taken back but by
    /// reconciliation. A call that fails changes nothing.
    fn st_transfer_call(
        &mut self,
        caller: &String,
        attached_deposit: u128,
        prepaid_gas: u64,
        token_symbol: String,
        receiver_id: String,
        amount: u128,
        msg: String,
        memo: Option<String>,
    ) -> (call: Result<ReceiverCall, TokenError>)
        requires
            old(self).sound(),
        ensures
            final(self).sound(),
            final(self).registry() == old(self).registry(),
            match call {
                Ok(notice) => {
                    &&& st_transfer_call_spec(
                        old(self).holders(),
                        caller@,
                        attached_deposit,
                        prepaid_gas,
                        token_symbol@,
                        receiver_id@,
                        amount,
                    ) == Ok::<Seq<EntryView>, TokenError>(final(self).holders())
                    &&& notice.receiver_id@ == receiver_id@
                    &&& notice.token_symbol@ == token_symbol@
                    &&& notice.sender_id@ == caller@
                    &&& notice.amount == amount
                    &&& notice.msg@ == msg@
                    &&& handler_allowance(prepaid_gas) == Ok::<u64, TokenError>(
                        notice.gas_for_handler,
                    )
                    &&& notice.gas_for_resolve == GAS_FOR_RESOLVE_TRANSFER
                },
                Err(e) => st_transfer_call_spec(
                    old(self).holders(),
                    caller@,
                    attached_deposit,
                    prepaid_gas,
                    token_symbol@,
                    receiver_id@,
                    amount,
                ) == Err::<Seq<EntryView>, TokenError>(e) && final(self).holders() == old(self).holders(),
            },
    ;

    /// The circulating supply of the token `token_symbol`, or `NotFound`
    /// where no such token is recorded.
    fn get_social_token_supply(&self, token_symbol: &String) -> (supply: Result<u128, TokenError>)
        requires
            self.sound(),
        ensures
            match token_of(self.registry(), token_symbol@) {
                Some(token) => supply == Ok::<u128, TokenError>(token.supply),
                None => supply == Err::<u128, TokenError>(TokenError::NotFound),
            },
    ;

    /// The creator of the token `token_symbol`, or `NotFound` where no such
    /// token is recorded.
    fn get_social_token_owner(&self, token_symbol: &String) -> (owner: Result<String, TokenError>)
        requires
            self.sound(),
        ensures
            match token_of(self.registry(), token_symbol@) {
                Some(token) => owner matches Ok(id) && id@ == token.creator_id,
                None => owner matches Err(e) && e == TokenError::NotFound,
            },
    ;

    /// The balance of `account_id` under `token_symbol`, or
    /// `AccountNotRegistered` where the account has no entry there.
    fn get_balance(&self, token_symbol: &String, account_id: &String) -> (balance: Result<
        u128,
        TokenError,
    >)
        requires
            self.sound(),
        ensures
            match balance_of(self.holders(), token_symbol@, account_id@) {
                Some(held) => balance == Ok::<u128, TokenError>(held),
                None => balance == Err::<u128, TokenError>(TokenError::AccountNotRegistered),
            },
    ;
}

impl SocialTokensCore for SocialTokens {
    open spec fn sound(&self) -> bool {
        self.wf()
    }

    open spec fn registry(&self) -> Seq<TokenView> {
        self.tokens()
    }

    open spec fn holders(&self) -> Seq<EntryView> {
        self.balances()
    }

    fn st_transfer(
        &mut self,
        caller: &String,
        attached_deposit: u128,
        token_symbol: String,
        sender_id: Option<String>,
        receiver_id: String,
        amount: u128,
        memo: Option<String>,
    ) -> (done: Result<(), TokenError>)
        ensures
            final(self).same_settings(old(self)),
    {
        match assert_one_yocto(attached_deposit) {
            Err(e) => {
                return Err(e);
            },
            Ok(()) => {},
        }
        match sender_id {
            Some(sender) => self.internal_transfer(
                &token_symbol,
                &sender,
                &receiver_id,
                amount,
                memo,
            ),
            None => self.internal_transfer(&token_symbol, caller, &receiver_id, amount, memo),
        }
    }

    fn st_transfer_call(
        &mut self,
        caller: &String,
        attached_deposit: u128,
        prepaid_gas: u64,
        token_symbol: String,
        receiver_id: String,
        amount: u128,
        msg: String,
        memo: Option<String>,
    ) -> (call: Result<ReceiverCall, TokenError>)
        ensures
            final(self).same_settings(old(self)),
    {
        match assert_one_yocto(attached_deposit) {
            Err(e) => {
                return Err(e);
            },
            Ok(()) => {},
        }
        let gas_for_handler = match check_allowance(prepaid_gas) {
            Ok(gas) => gas,
            Err(e) => {
                return Err(e);
            },
        };
        match self.internal_transfer(&token_symbol, caller, &receiver_id, amount, memo) {
            Err(e) => {
                return Err(e);
            },
            Ok(()) => {},
        }
        Ok(
            ReceiverCall {
                receiver_id,
                token_symbol,
                sender_id: caller.clone(),
                amount,
                msg,
                gas_for_handler,
                gas_for_resolve: GAS_FOR_RESOLVE_TRANSFER,
            },
        )
    }

    fn get_social_token_supply(&self, token_symbol: &String) -> (supply: Result<u128, TokenError>) {
        match self.find_token_place(token_symbol) {
            None => Err(TokenError::NotFound),
            Some(i) => Ok(self.social_tokens[i].supply),
        }
    }

    fn get_social_token_owner(&self, token_symbol: &String) -> (owner: Result<String, TokenError>) {
        match self.find_token_place(token_symbol) {
            None => Err(TokenError::NotFound),
            Some(i) => Ok(self.social_tokens[i].creator_id.clone()),
        }
    }

    fn get_balance(&self, token_symbol: &String, account_id: &String) -> (balance: Result<
        u128,
        TokenError,
    >) {
        match self.st_to_accounts.st_get_balance(token_symbol, account_id) {
            Some(held) => Ok(held),
            None => Err(TokenError::AccountNotRegistered),
        }
    }
}

} // verus!
