use vstd::prelude::*;
use vstd::string::{to_string_from_display_ensures};
use crate::keyed::{
    distinct, find, keys_distinct, keys_of, lemma_position_unique, lemma_push_distinct, position,
    text_views, texts_distinct, with_pair, Keyed,
};
use crate::nft::{Approval, RoyaltyShare};

verus! {

/// The compute allowance of a single call made from a use case.
pub const SINGLE_CALL_GAS: u64 = 30_000_000_000_000;

/// The compute allowance of a call that only moves tokens or updates one.
pub const BASE_CALL_GAS: u64 = 25_000_000_000_000;

/// The type of the tokens that stand for a campaign.
pub const TWITTER_CAMPAIGN_NFT_TYPE: &'static str = "reward";

/// The type of the tokens that stand for content one can subscribe to.
pub const CONTENT_NFT_TYPE: &'static str = "content";

/// The type of the tokens that stand for a subscription pass.
pub const SUBSCRIPTION_PASS_NFT_TYPE: &'static str = "subscription";

/// The account of the catalog of non-fungible tokens.
pub const NFT_CONTRACT_ACCOUNT: &'static str = "nft.momentize.testnet";

/// The account of the single-currency ledger.
pub const FT_CONTRACT_ACCOUNT: &'static str = "ft.momentize.testnet";

/// The time a subscription pass is valid for, in nanoseconds.
pub const NANOSECS_IN_MONTH: u64 = 2_592_000_000_000_000;

/// The unit in which the delay of a renewal request is counted.
pub const NANOSECS_IN_HOUR: u64 = 2976190;

/// The method the oracle calls with the verdict on a campaign.
pub const CAMPAIGN_CALLBACK: &'static str = "campaign_verification_callback";

/// The method the oracle calls when a pass is due for renewal.
pub const RENEWAL_CALLBACK: &'static str = "renew_subscription_pass";

/// The identifier of a token of the catalog.
pub struct TokenId(pub String);

/// What a token of the catalog says of itself, as the use cases read it.
pub struct TokenMetadata {
    pub title: Option<String>,
    pub description: Option<String>,
    pub max_updates: Option<u64>,
    pub update_no: Option<u64>,
    pub ft_account_id: Option<String>,
    pub ft_amount: Option<u128>,
    pub issued_at: Option<String>,
    pub expires_at: Option<String>,
    pub starts_at: Option<String>,
    pub updated_at: Option<String>,
    pub extra: Option<Vec<String>>,
    pub reference: Option<String>,
}

/// A token of the catalog, as the use cases read it.
pub struct JsonToken {
    pub token_id: String,
    pub creator_id: String,
    pub owner_id: String,
    pub metadata: TokenMetadata,
    pub approved_account_ids: Vec<Approval>,
    pub royalty: Vec<RoyaltyShare>,
    pub token_type: Option<String>,
}

/// The tokens that stand for campaigns.
pub struct CampaignsType(pub Vec<JsonToken>);

/// The oracle's verdict on what a user did for a campaign.
pub struct CampaignVerificationResult {
    pub user_id: String,
    pub campaign_id: String,
    pub completed: bool,
}

/// What the oracle is asked to verify for a campaign.
pub struct JSONCampaign {
    pub user_id: String,
    pub campaign_id: String,
    pub tweet_id: String,
    pub operations: Vec<String>,
}

/// What the oracle is asked to do when a pass is due for renewal.
pub struct SubscriptionPassRequest {
    pub fulfill_at: String,
    pub subscription_pass_id: String,
}

/// Why a use case was refused.
#[derive(Clone, Copy, Debug, PartialEq, Eq, Structural)]
pub enum UsecaseError {
    /// The signer is not the owner of the contract.
    Unauthorized,
    /// The oracle account is not among the trusted ones.
    OracleNotTrusted,
    /// A call that this step depends on has failed.
    PromiseFailed,
    /// What came back from a call is not what was expected.
    InvalidResponse,
    /// The token lacks a field that the use case reads.
    MissingField,
    /// Every reward of the campaign has been claimed.
    NoMoreRewards,
    /// The token is not content one can subscribe to.
    NotContent,
    /// A number would exceed what its type holds.
    Overflow,
    /// A campaign with no rewards cannot share out its amount.
    NoRewards,
    /// Nobody is recorded as the owner of the request.
    UnknownNonce,
}

/// Who asked for the verification with a given nonce.
pub struct NonceOwner {
    pub nonce: String,
    pub owner: String,
}

/// A verdict that the oracle sent for a given nonce.
pub struct Received {
    pub nonce: String,
    pub answer: String,
}

/// A movement of tokens of the single currency, followed by an update of a
/// token's metadata, that a use case asks the host to make.
pub struct PaidUpdate {
    pub from: String,
    pub to: String,
    pub amount: u128,
    pub token_id: String,
    pub metadata: TokenMetadata,
}

/// The number that a string of decimal digits spells, where it spells one
/// that a `u64` holds: what `str::parse::<u64>` yields for it.
pub uninterp spec fn parsed_u64(text: Seq<char>) -> Option<u64>;

/// Calls `str::parse::<u64>`, which reads a decimal number. The answer
/// depends on the text alone; text that spells no such number yields `None`.
#[verifier::external_body]
fn parse_u64(text: &str) -> (number: Option<u64>)
    ensures
        number == parsed_u64(text@),
{
    text.parse::<u64>().ok()
}

/// The string that a JSON text spells, where it spells one: what
/// `serde_json::from_slice` yields for it at the type `String`.
pub uninterp spec fn json_string(response: Seq<u8>) -> Option<Seq<char>>;

/// Calls `serde_json::from_slice` at the type `String`, which reads one JSON
/// string. The answer depends on the bytes alone; bytes that are no JSON
/// string yield `None`.
#[verifier::external_body]
fn parse_json_string(response: &[u8]) -> (text: Option<String>)
    ensures
        match text {
            Some(s) => json_string(response@) == Some(s@),
            None => json_string(response@) is None,
        },
{
    serde_json::from_slice::<String>(response).ok()
}

/// The moment a pass expires, read from its text: the number it spells, or
/// zero where it spells none.
pub open spec fn expiry_of(text: Seq<char>) -> u64 {
    match parsed_u64(text) {
        Some(moment) => moment,
        None => 0,
    }
}

/// Whether a pass that expires at the moment `expires_at` spells is still
/// valid at the moment `now`.
pub open spec fn still_valid(expires_at: Seq<char>, now: u64) -> bool {
    expiry_of(expires_at) > now
}

/// Whether a pass whose expiry was read as `expiry` is still valid at the
/// moment `now`; an expiry that could not be read counts as long past.
pub fn valid_until(expiry: Option<u64>, now: u64) -> (valid: bool)
    ensures
        valid == (match expiry {
            Some(moment) => moment,
            None => 0,
        } > now),
{
    match expiry {
        Some(moment) => moment > now,
        None => 0 > now,
    }
}

/// The identifier that a minting call answered with. A call that failed
/// yields `PromiseFailed`, an answer that is no JSON string
/// `InvalidResponse`.
pub fn minted_token_id(promise_result: Option<Vec<u8>>) -> (token_id: Result<String, UsecaseError>)
    ensures
        match promise_result {
            None => token_id matches Err(e) && e == UsecaseError::PromiseFailed,
            Some(bytes) => match json_string(bytes@) {
                Some(text) => token_id matches Ok(id) && id@ == text,
                None => token_id matches Err(e) && e == UsecaseError::InvalidResponse,
            },
        },
{
    match promise_result {
        None => Err(UsecaseError::PromiseFailed),
        Some(bytes) => token_id_from_answer(parse_json_string(bytes.as_slice())),
    }
}

/// The identifier that a minting call answered with, given what its answer
/// spelled.
pub fn token_id_from_answer(answer: Option<String>) -> (token_id: Result<String, UsecaseError>)
    ensures
        match answer {
            Some(text) => token_id == Ok::<String, UsecaseError>(text),
            None => token_id == Err::<String, UsecaseError>(UsecaseError::InvalidResponse),
        },
{
    match answer {
        Some(text) => Ok(text),
        None => Err(UsecaseError::InvalidResponse),
    }
}

/// The metadata of the token that stands for a campaign on a tweet: the
/// reward is `ft_amount` of the currency of `ft_account_id`, to be shared
/// among at most `max_claimants` users who perform `operations`.
pub fn twitter_campaign_metadata(
    ft_account_id: String,
    ft_amount: u128,
    max_claimants: u64,
    tweet_id: String,
    operations: Vec<String>,
) -> (metadata: TokenMetadata)
    ensures
        metadata.title matches Some(t) && t@ == "Twitter campaign NFT"@,
        metadata.description matches Some(d) && d@ == "Twitter campaign NFT"@,
        metadata.reference == Some(tweet_id),
        metadata.ft_account_id == Some(ft_account_id),
        metadata.ft_amount == Some(ft_amount),
        metadata.max_updates == Some(max_claimants),
        metadata.extra == Some(operations),
        metadata.update_no == Some(0u64),
        metadata.issued_at is None,
        metadata.starts_at is None,
        metadata.updated_at is None,
        metadata.expires_at is None,
{
    TokenMetadata {
        title: Some(String::from_str("Twitter campaign NFT")),
        description: Some(String::from_str("Twitter campaign NFT")),
        reference: Some(tweet_id),
        ft_account_id: Some(ft_account_id),
        ft_amount: Some(ft_amount),
        max_updates: Some(max_claimants),
        extra: Some(operations),
        update_no: Some(0),
        issued_at: None,
        starts_at: None,
        updated_at: None,
        expires_at: None,
    }
}

/// The metadata of the token that stands for content one can subscribe to,
/// at `pass_price` of the currency of `ft_account_id` for each pass.
pub fn subscription_content_metadata(
    content_reference: String,
    pass_price: u128,
    ft_account_id: String,
) -> (metadata: TokenMetadata)
    ensures
        metadata.title matches Some(t) && t@ == "Subscription content NFT"@,
        metadata.description matches Some(d) && d@ == "Subscription content NFT"@,
        metadata.reference == Some(content_reference),
        metadata.ft_account_id == Some(ft_account_id),
        metadata.ft_amount == Some(pass_price),
        metadata.max_updates is None,
        metadata.extra is None,
        metadata.update_no is None,
        metadata.issued_at is None,
        metadata.starts_at is None,
        metadata.updated_at is None,
        metadata.expires_at is None,
{
    TokenMetadata {
        title: Some(String::from_str("Subscription content NFT")),
        description: Some(String::from_str("Subscription content NFT")),
        reference: Some(content_reference),
        ft_account_id: Some(ft_account_id),
        ft_amount: Some(pass_price),
        max_updates: None,
        extra: None,
        update_no: None,
        issued_at: None,
        starts_at: None,
        updated_at: None,
        expires_at: None,
    }
}

/// What the oracle is asked to verify for `user_id` on a campaign. The
/// campaign must say how many rewards it has and how many were claimed, which
/// tweet it is about and what is to be done (`MissingField`), and a reward
/// must be left (`NoMoreRewards`).
pub fn campaign_request(user_id: String, campaign: JsonToken) -> (request: Result<
    JSONCampaign,
    UsecaseError,
>)
    ensures
        match (
            campaign.metadata.update_no,
            campaign.metadata.max_updates,
            campaign.metadata.reference,
            campaign.metadata.extra,
        ) {
            (Some(update_no), Some(max_updates), Some(tweet), Some(operations)) => if update_no
                < max_updates {
                request matches Ok(r) && r.user_id == user_id && r.campaign_id == campaign.token_id
                    && r.tweet_id == tweet && r.operations == operations
            } else {
                request matches Err(e) && e == UsecaseError::NoMoreRewards
            },
            (Some(update_no), Some(max_updates), _, _) => request matches Err(e) && e == if update_no
                < max_updates {
                UsecaseError::MissingField
            } else {
                UsecaseError::NoMoreRewards
            },
            _ => request matches Err(e) && e == UsecaseError::MissingField,
        },
{
    let update_no = match campaign.metadata.update_no {
        Some(n) => n,
        None => {
            return Err(UsecaseError::MissingField);
        },
    };
    let max_updates = match campaign.metadata.max_updates {
        Some(n) => n,
        None => {
            return Err(UsecaseError::MissingField);
        },
    };
    if !(update_no < max_updates) {
        return Err(UsecaseError::NoMoreRewards);
    }
    let tweet_id = match campaign.metadata.reference {
        Some(tweet) => tweet,
        None => {
            return Err(UsecaseError::MissingField);
        },
    };
    let operations = match campaign.metadata.extra {
        Some(operations) => operations,
        None => {
            return Err(UsecaseError::MissingField);
        },
    };
    Ok(JSONCampaign { user_id, campaign_id: campaign.token_id, tweet_id, operations })
}

/// Whether an account whose storage balance is `total` has yet to pay for
/// its storage with the single-currency ledger.
pub fn needs_storage_deposit(total: u128) -> (needed: bool)
    ensures
        needed == (total == 0),
{
    0 >= total
}

/// Whether the pass is still valid at the moment `now`. A pass that does
/// not say when it expires yields `MissingField`.
pub fn pass_is_valid(pass: &JsonToken, now: u64) -> (valid: Result<bool, UsecaseError>)
    ensures
        match pass.metadata.expires_at {
            Some(text) => valid == Ok::<bool, UsecaseError>(still_valid(text@, now)),
            None => valid == Err::<bool, UsecaseError>(UsecaseError::MissingField),
        },
{
    match &pass.metadata.expires_at {
        Some(text) => Ok(valid_until(parse_u64(text.as_str()), now)),
        None => Err(UsecaseError::MissingField),
    }
}

/// What a reward is: the campaign's amount shared among its rewards, the
/// quotient truncated.
pub open spec fn reward_share(ft_amount: u128, max_updates: u64) -> u128 {
    (ft_amount / (max_updates as u128)) as u128
}

impl Keyed for NonceOwner {
    open spec fn key_view(&self) -> Seq<char> {
        self.nonce@
    }

    fn key(&self) -> (key: &String) {
        &self.nonce
    }
}

/// The reward for one user of a campaign, and the campaign's metadata with
/// one more reward counted as claimed.
pub open spec fn reward_spec(campaign: JsonToken) -> Result<(u128, TokenMetadata), UsecaseError> {
    match (campaign.metadata.update_no, campaign.metadata.ft_amount, campaign.metadata.max_updates) {
        (Some(update_no), Some(ft_amount), Some(max_updates)) => if update_no == u64::MAX {
            Err(UsecaseError::Overflow)
        } else if max_updates == 0 {
            Err(UsecaseError::NoRewards)
        } else {
            Ok(
                (
                    reward_share(ft_amount, max_updates),
                    TokenMetadata { update_no: Some((update_no + 1) as u64), ..campaign.metadata },
                ),
            )
        },
        _ => Err(UsecaseError::MissingField),
    }
}

/// The reward for one user of a campaign, and the campaign's metadata with
/// one more reward counted as claimed. The campaign must say how many
/// rewards were claimed, its amount and how many rewards it has
/// (`MissingField`); the count must stay within a `u64` (`Overflow`) and
/// there must be at least one reward to share the amount among
/// (`NoRewards`).
pub fn reward(campaign: JsonToken) -> (share: Result<(u128, String, String, TokenMetadata), UsecaseError>)
    ensures
        match reward_spec(campaign) {
            Ok((amount, metadata)) => share == Ok::<
                (u128, String, String, TokenMetadata),
                UsecaseError,
            >((amount, campaign.owner_id, campaign.token_id, metadata)),
            Err(e) => share == Err::<(u128, String, String, TokenMetadata), UsecaseError>(e),
        },
{
    let update_no = match campaign.metadata.update_no {
        Some(n) => n,
        None => {
            return Err(UsecaseError::MissingField);
        },
    };
    let ft_amount = match campaign.metadata.ft_amount {
        Some(n) => n,
        None => {
            return Err(UsecaseError::MissingField);
        },
    };
    let max_updates = match campaign.metadata.max_updates {
        Some(n) => n,
        None => {
            return Err(UsecaseError::MissingField);
        },
    };
    if update_no == u64::MAX {
        return Err(UsecaseError::Overflow);
    }
    if max_updates == 0 {
        return Err(UsecaseError::NoRewards);
    }
    let mut updated_metadata = campaign.metadata;
    updated_metadata.update_no = Some(update_no + 1);
    Ok((ft_amount / (max_updates as u128), campaign.owner_id, campaign.token_id, updated_metadata))
}

/// The contract that runs the use cases: it knows which oracles it trusts,
/// counts its requests to them, and keeps who asked and what they answered.
pub struct UsecasesContract {
    /// The account that owns the contract.
    pub owner_id: String,
    /// The oracles whose verdicts are accepted, each once.
    pub trusted_oracles: Vec<String>,
    /// The nonce of the next request.
    pub request_nonce: u128,
    /// For each request, by its nonce, who asked.
    pub nonce_owner: Vec<NonceOwner>,
    /// The verdicts received, in the order in which their nonces were first
    /// seen.
    pub received: Vec<Received>,
}

/// The verdicts as the contracts see them: nonce and answer.
pub open spec fn verdicts(received: Seq<Received>) -> Seq<(Seq<char>, Seq<char>)> {
    received.map_values(|r: Received| (r.nonce@, r.answer@))
}

/// The nonces of the verdicts.
pub open spec fn verdict_nonces(received: Seq<Received>) -> Seq<Seq<char>> {
    received.map_values(|r: Received| r.nonce@)
}

/// The owners of the requests as the contracts see them: nonce and owner.
pub open spec fn owners(nonce_owner: Seq<NonceOwner>) -> Seq<(Seq<char>, Seq<char>)> {
    nonce_owner.map_values(|n: NonceOwner| (n.nonce@, n.owner@))
}

impl UsecasesContract {
    /// The contract's invariant: each oracle is trusted once, each nonce
    /// has one owner and one verdict at most.
    pub open spec fn wf(&self) -> bool {
        &&& distinct(text_views(self.trusted_oracles@))
        &&& distinct(keys_of(self.nonce_owner@))
        &&& distinct(verdict_nonces(self.received@))
    }

    /// Whether the oracle is among the trusted ones.
    pub open spec fn trusts(&self, oracle: Seq<char>) -> bool {
        text_views(self.trusted_oracles@).contains(oracle)
    }

    /// A contract owned by `owner_id` that trusts no oracle yet and has made
    /// no request.
    pub fn new(owner_id: String) -> (contract: UsecasesContract)
        ensures
            contract.wf(),
            contract.owner_id == owner_id,
            contract.trusted_oracles@ == Seq::<String>::empty(),
            contract.request_nonce == 0,
            contract.nonce_owner@ == Seq::<NonceOwner>::empty(),
            contract.received@ == Seq::<Received>::empty(),
    {
        let contract = UsecasesContract {
            owner_id,
            trusted_oracles: Vec::new(),
            request_nonce: 0,
            nonce_owner: Vec::new(),
            received: Vec::new(),
        };
        assert(text_views(contract.trusted_oracles@) =~= Seq::<Seq<char>>::empty());
        assert(keys_of(contract.nonce_owner@) =~= Seq::<Seq<char>>::empty());
        assert(verdict_nonces(contract.received@) =~= Seq::<Seq<char>>::empty());
        contract
    }

    /// Whether the contract's invariant holds.
    pub fn is_valid(&self) -> (valid: bool)
        ensures
            valid == self.wf(),
    {
        if !texts_distinct(&self.trusted_oracles) || !keys_distinct(&self.nonce_owner) {
            return false;
        }
        let ghost nonces = verdict_nonces(self.received@);
        let mut i: usize = 0;
        while i < self.received.len()
            invariant
                i <= self.received.len(),
                nonces == verdict_nonces(self.received@),
                forall|a: int, b: int|
                    0 <= a < i && 0 <= b < nonces.len() && a != b ==> #[trigger] nonces[a]
                        != #[trigger] nonces[b],
            decreases self.received.len() - i,
        {
            let mut j: usize = i + 1;
            while j < self.received.len()
                invariant
                    i < j <= self.received.len(),
                    nonces == verdict_nonces(self.received@),
                    forall|b: int| i < b < j ==> nonces[i as int] != #[trigger] nonces[b],
                decreases self.received.len() - j,
            {
                if self.received[i].nonce == self.received[j].nonce {
                    assert(nonces[i as int] == nonces[j as int]);
                    return false;
                }
                j += 1;
            }
            assert forall|a: int, b: int|
                0 <= a < i + 1 && 0 <= b < nonces.len() && a != b implies #[trigger] nonces[a]
                != #[trigger] nonces[b] by {
                if a == i && b < i {
                    assert(nonces[b] != nonces[a]);
                }
            }
            i += 1;
        }
        true
    }

    /// The place of `oracle` among the trusted oracles.
    fn oracle_place(&self, oracle: &String) -> (place: Option<usize>)
        ensures
            match place {
                Some(i) => i < self.trusted_oracles@.len() && self.trusted_oracles@[i as int]@
                    == oracle@ && self.trusts(oracle@),
                None => !self.trusts(oracle@),
            },
    {
        let mut i: usize = 0;
        while i < self.trusted_oracles.len()
            invariant
                i <= self.trusted_oracles.len(),
                forall|j: int| 0 <= j < i ==> #[trigger] text_views(self.trusted_oracles@)[j] != oracle@,
            decreases self.trusted_oracles.len() - i,
        {
            if self.trusted_oracles[i] == *oracle {
                assert(text_views(self.trusted_oracles@)[i as int] == oracle@);
                return Some(i);
            }
            i += 1;
        }
        None
    }

    /// Whether the oracle is among the trusted ones.
    pub fn is_trusted(&self, oracle_account: &String) -> (trusted: bool)
        ensures
            trusted == self.trusts(oracle_account@),
    {
        self.oracle_place(oracle_account).is_some()
    }

    /// Adds an oracle to the trusted ones, at the end, unless it is among
    /// them already. Only the owner may do so, else `Unauthorized`.
    pub fn add_oracle(&mut self, signer_id: &String, oracle_account: String) -> (done: Result<
        (),
        UsecaseError,
    >)
        requires
            old(self).wf(),
        ensures
            final(self).wf(),
            final(self).owner_id == old(self).owner_id,
            final(self).request_nonce == old(self).request_nonce,
            final(self).nonce_owner == old(self).nonce_owner,
            final(self).received == old(self).received,
            match done {
                Ok(()) => signer_id@ == old(self).owner_id@ && text_views(final(self).trusted_oracles@)
                    == if old(self).trusts(oracle_account@) {
                    text_views(old(self).trusted_oracles@)
                } else {
                    text_views(old(self).trusted_oracles@).push(oracle_account@)
                },
                Err(e) => signer_id@ != old(self).owner_id@ && e == UsecaseError::Unauthorized
                    && final(self).trusted_oracles == old(self).trusted_oracles,
            },
    {
        if *signer_id != self.owner_id {
            return Err(UsecaseError::Unauthorized);
        }
        if self.oracle_place(&oracle_account).is_none() {
            proof {
                lemma_push_distinct(text_views(self.trusted_oracles@), oracle_account@);
            }
            self.trusted_oracles.push(oracle_account);
            assert(text_views(self.trusted_oracles@) =~= text_views(old(self).trusted_oracles@).push(
                oracle_account@,
            ));
        }
        Ok(())
    }

    /// Removes an oracle from the trusted ones; those behind it move up.
    /// Only the owner may do so, else `Unauthorized`; an oracle that is not
    /// among the trusted ones yields `OracleNotTrusted`.
    pub fn remove_oracle(&mut self, signer_id: &String, oracle_account: String) -> (done: Result<
        (),
        UsecaseError,
    >)
        requires
            old(self).wf(),
        ensures
            final(self).wf(),
            final(self).owner_id == old(self).owner_id,
            final(self).request_nonce == old(self).request_nonce,
            final(self).nonce_owner == old(self).nonce_owner,
            final(self).received == old(self).received,
            match done {
                Ok(()) => signer_id@ == old(self).owner_id@ && old(self).trusts(oracle_account@)
                    && text_views(final(self).trusted_oracles@) == text_views(
                    old(self).trusted_oracles@,
                ).remove(position(text_views(old(self).trusted_oracles@), oracle_account@))
                    && !final(self).trusts(oracle_account@),
                Err(e) => final(self).trusted_oracles == old(self).trusted_oracles && e
                    == if signer_id@ != old(self).owner_id@ {
                    UsecaseError::Unauthorized
                } else {
                    UsecaseError::OracleNotTrusted
                } && (signer_id@ != old(self).owner_id@ || !old(self).trusts(oracle_account@)),
            },
    {
        if *signer_id != self.owner_id {
            return Err(UsecaseError::Unauthorized);
        }
        match self.oracle_place(&oracle_account) {
            None => Err(UsecaseError::OracleNotTrusted),
            Some(index) => {
                let ghost before = text_views(self.trusted_oracles@);
                proof {
                    lemma_position_unique(before, index as int);
                }
                self.trusted_oracles.remove(index);
                proof {
                    let after = text_views(self.trusted_oracles@);
                    assert(after =~= before.remove(index as int));
                    assert forall|i: int, j: int|
                        0 <= i < after.len() && 0 <= j < after.len() && i != j implies #[trigger] after[i]
                        != #[trigger] after[j] by {
                        let i0 = if i < index { i } else { i + 1 };
                        let j0 = if j < index { j } else { j + 1 };
                        assert(after[i] == before[i0] && after[j] == before[j0]);
                    }
                    assert forall|i: int| 0 <= i < after.len() implies #[trigger] after[i]
                        != oracle_account@ by {
                        let i0 = if i < index { i } else { i + 1 };
                        assert(after[i] == before[i0]);
                    }
                }
                Ok(())
            },
        }
    }

    /// Checks a request to verify what a user did for the campaign
    /// `campaign_id`, and says which token of the catalog is to be fetched:
    /// the one whose identifier is the decimal form of `campaign_id`. An
    /// oracle that is not trusted yields `OracleNotTrusted`.
    pub fn verify_campaign(&self, oracle_account: &String, campaign_id: u128) -> (token_id: Result<
        String,
        UsecaseError,
    >)
        ensures
            match token_id {
                Ok(id) => self.trusts(oracle_account@) && to_string_from_display_ensures::<u128>(
                    &campaign_id,
                    id,
                ),
                Err(e) => !self.trusts(oracle_account@) && e == UsecaseError::OracleNotTrusted,
            },
    {
        if !self.is_trusted(oracle_account) {
            return Err(UsecaseError::OracleNotTrusted);
        }
        Ok(campaign_id.to_string())
    }

    /// Records that `signer_id` owns the request that is about to go to the
    /// oracle under the current nonce, and moves on to the next nonce. The
    /// result is the nonce after the one used. A nonce beyond `u128::MAX`
    /// yields `Overflow` and changes nothing.
    pub fn on_get_storage_balance(&mut self, signer_id: String) -> (next: Result<u128, UsecaseError>)
        requires
            old(self).wf(),
        ensures
            final(self).wf(),
            final(self).owner_id == old(self).owner_id,
            final(self).trusted_oracles == old(self).trusted_oracles,
            final(self).received == old(self).received,
            match next {
                Ok(nonce) => {
                    &&& nonce == old(self).request_nonce + 1
                    &&& final(self).request_nonce == nonce
                    &&& exists|key: String| #[trigger]
                        to_string_from_display_ensures::<u128>(&old(self).request_nonce, key)
                            && owners(final(self).nonce_owner@) == with_pair(
                            owners(old(self).nonce_owner@),
                            key@,
                            signer_id@,
                        )
                },
                Err(e) => e == UsecaseError::Overflow && old(self).request_nonce == u128::MAX
                    && final(self).request_nonce == old(self).request_nonce && final(self).nonce_owner == old(self).nonce_owner,
            },
    {
        if self.request_nonce == u128::MAX {
            return Err(UsecaseError::Overflow);
        }
        let key = self.request_nonce.to_string();
        let ghost before = owners(self.nonce_owner@);
        assert(keys_of(self.nonce_owner@) =~= before.map_values(|o: (Seq<char>, Seq<char>)| o.0));
        match find(&self.nonce_owner, &key) {
            Some(i) => {
                proof {
                    lemma_position_unique(keys_of(self.nonce_owner@), i as int);
                }
                self.nonce_owner[i].owner = signer_id;
                assert(keys_of(self.nonce_owner@) =~= keys_of(old(self).nonce_owner@));
            },
            None => {
                proof {
                    lemma_push_distinct(keys_of(self.nonce_owner@), key@);
                }
                self.nonce_owner.push(NonceOwner { nonce: key, owner: signer_id });
                assert(keys_of(self.nonce_owner@) =~= keys_of(old(self).nonce_owner@).push(key@));
            },
        }
        assert(owners(self.nonce_owner@) =~= with_pair(before, key@, signer_id@));
        self.request_nonce = self.request_nonce + 1;
        Ok(self.request_nonce)
    }

    /// Who asked for the verification with the given nonce, if anyone.
    pub fn owner_of_nonce(&self, nonce: &String) -> (owner: Option<String>)
        requires
            self.wf(),
        ensures
            match owner {
                Some(id) => keys_of(self.nonce_owner@).contains(nonce@) && id@
                    == self.nonce_owner@[position(keys_of(self.nonce_owner@), nonce@)].owner@,
                None => !keys_of(self.nonce_owner@).contains(nonce@),
            },
    {
        match find(&self.nonce_owner, nonce) {
            None => None,
            Some(i) => {
                proof {
                    lemma_position_unique(keys_of(self.nonce_owner@), i as int);
                }
                Some(self.nonce_owner[i].owner.clone())
            },
        }
    }

    /// Takes in the oracle's verdict `answer` for the request with the given
    /// nonce; `result` is what the verdict spells, where it spells one. Only
    /// a trusted oracle may deliver a verdict (`OracleNotTrusted`), and the
    /// verdict must spell one (`InvalidResponse`); else nothing changes. The
    /// verdict is kept under its nonce, in place of an earlier one. The
    /// result names the campaign whose rewards are to be distributed, where
    /// the user completed it.
    pub fn campaign_verification_callback(
        &mut self,
        predecessor_id: &String,
        nonce: String,
        answer: String,
        result: Option<CampaignVerificationResult>,
    ) -> (campaign: Result<Option<String>, UsecaseError>)
        requires
            old(self).wf(),
        ensures
            final(self).wf(),
            final(self).owner_id == old(self).owner_id,
            final(self).trusted_oracles == old(self).trusted_oracles,
            final(self).request_nonce == old(self).request_nonce,
            final(self).nonce_owner == old(self).nonce_owner,
            match campaign {
                Ok(to_reward) => {
                    &&& old(self).trusts(predecessor_id@)
                    &&& result matches Some(verdict) && to_reward == if verdict.completed {
                        Some(verdict.campaign_id)
                    } else {
                        None
                    }
                    &&& verdicts(final(self).received@) == with_pair(
                        verdicts(old(self).received@),
                        nonce@,
                        answer@,
                    )
                },
                Err(e) => final(self).received == old(self).received && e == if !old(self).trusts(
                    predecessor_id@,
                ) {
                    UsecaseError::OracleNotTrusted
                } else {
                    UsecaseError::InvalidResponse
                } && (!old(self).trusts(predecessor_id@) || result is None),
            },
    {
        if !self.is_trusted(predecessor_id) {
            return Err(UsecaseError::OracleNotTrusted);
        }
        let verdict = match result {
            Some(verdict) => verdict,
            None => {
                return Err(UsecaseError::InvalidResponse);
            },
        };
        let ghost before = verdicts(self.received@);
        let ghost nonces = verdict_nonces(self.received@);
        assert(nonces =~= before.map_values(|o: (Seq<char>, Seq<char>)| o.0));
        let mut i: usize = 0;
        let mut place: Option<usize> = None;
        while i < self.received.len() && place.is_none()
            invariant
                i <= self.received.len(),
                nonces == verdict_nonces(self.received@),
                match place {
                    Some(p) => p < self.received@.len() && nonces[p as int] == nonce@,
                    None => forall|j: int| 0 <= j < i ==> #[trigger] nonces[j] != nonce@,
                },
            decreases self.received.len() - i + if place.is_none() { 1int } else { 0int },
        {
            if self.received[i].nonce == nonce {
                assert(nonces[i as int] == nonce@);
                place = Some(i);
            } else {
                i += 1;
            }
        }
        match place {
            Some(p) => {
                proof {
                    lemma_position_unique(nonces, p as int);
                }
                self.received[p].answer = answer;
                assert(verdict_nonces(self.received@) =~= nonces);
            },
            None => {
                proof {
                    lemma_push_distinct(nonces, nonce@);
                }
                self.received.push(Received { nonce, answer });
                assert(verdict_nonces(self.received@) =~= nonces.push(nonce@));
            },
        }
        assert(verdicts(self.received@) =~= with_pair(before, nonce@, answer@));
        if verdict.completed {
            Ok(Some(verdict.campaign_id))
        } else {
            Ok(None)
        }
    }

    /// The rewarding of the user who asked for the verification with the
    /// given nonce: the reward moves from the campaign's owner to that user,
    /// and the campaign counts one more reward as claimed. See `reward` for
    /// what the campaign must say; a nonce that nobody owns yields
    /// `UnknownNonce`.
    pub fn distribute_rewards(&self, nonce: &String, campaign: JsonToken) -> (paid: Result<
        PaidUpdate,
        UsecaseError,
    >)
        requires
            self.wf(),
        ensures
            match reward_spec(campaign) {
                Err(e) => paid matches Err(refusal) && refusal == e,
                Ok((amount, metadata)) => if keys_of(self.nonce_owner@).contains(nonce@) {
                    paid matches Ok(update) && update.from == campaign.owner_id && update.to@
                        == self.nonce_owner@[position(keys_of(self.nonce_owner@), nonce@)].owner@
                        && update.amount == amount && update.token_id == campaign.token_id
                        && update.metadata == metadata
                } else {
                    paid matches Err(refusal) && refusal == UsecaseError::UnknownNonce
                },
            },
    {
        let (amount, from, token_id, metadata) = match reward(campaign) {
            Ok(share) => share,
            Err(e) => {
                return Err(e);
            },
        };
        match self.owner_of_nonce(nonce) {
            None => Err(UsecaseError::UnknownNonce),
            Some(to) => Ok(PaidUpdate { from, to, amount, token_id, metadata }),
        }
    }

    /// The first `max` verdicts received, or all where there are fewer, in
    /// the order in which their nonces were first seen.
    pub fn get_received_vals(&self, max: u128) -> (vals: Vec<Received>)
        ensures
            verdicts(vals@) == verdicts(self.received@).take(
                if max < self.received@.len() {
                    max as int
                } else {
                    self.received@.len() as int
                },
            ),
    {
        let mut result: Vec<Received> = Vec::new();
        let mut counter: usize = 0;
        while counter < self.received.len() && (counter as u128) < max
            invariant
                counter <= self.received.len(),
                counter <= max,
                result@.len() == counter,
                forall|j: int|
                    0 <= j < counter ==> (#[trigger] result@[j]).nonce@ == self.received@[j].nonce@
                        && result@[j].answer@ == self.received@[j].answer@,
            decreases self.received.len() - counter,
        {
            result.push(
                Received {
                    nonce: self.received[counter].nonce.clone(),
                    answer: self.received[counter].answer.clone(),
                },
            );
            counter += 1;
        }
        assert(verdicts(result@) =~= verdicts(self.received@).take(counter as int));
        result
    }

    /// What the oracle is asked to do when the pass `subscription_pass_id`,
    /// which expires at `pass_expires_at`, is due for renewal, and the oracle
    /// that is asked: the first of the trusted ones. The request is due six
    /// units after the pass expires. Without a trusted oracle the result is
    /// `OracleNotTrusted`; a moment beyond `u64::MAX` yields `Overflow`.
    pub fn renewal_request(&self, pass_expires_at: u64, subscription_pass_id: String) -> (request:
        Result<(SubscriptionPassRequest, String), UsecaseError>)
        ensures
            match request {
                Ok((asked, oracle)) => {
                    &&& self.trusted_oracles@.len() > 0
                    &&& pass_expires_at + 6 * NANOSECS_IN_HOUR <= u64::MAX
                    &&& oracle@ == self.trusted_oracles@[0]@
                    &&& asked.subscription_pass_id == subscription_pass_id
                    &&& to_string_from_display_ensures::<u64>(
                        &((pass_expires_at + 6 * NANOSECS_IN_HOUR) as u64),
                        asked.fulfill_at,
                    )
                },
                Err(e) => e == if pass_expires_at + 6 * NANOSECS_IN_HOUR > u64::MAX {
                    UsecaseError::Overflow
                } else {
                    UsecaseError::OracleNotTrusted
                } && (pass_expires_at + 6 * NANOSECS_IN_HOUR > u64::MAX
                    || self.trusted_oracles@.len() == 0),
            },
    {
        let delay: u64 = 6 * NANOSECS_IN_HOUR;
        let fulfill_at = match pass_expires_at.checked_add(delay) {
            Some(moment) => moment,
            None => {
                return Err(UsecaseError::Overflow);
            },
        };
        if self.trusted_oracles.len() == 0 {
            return Err(UsecaseError::OracleNotTrusted);
        }
        Ok(
            (
                SubscriptionPassRequest {
                    fulfill_at: fulfill_at.to_string(),
                    subscription_pass_id,
                },
                self.trusted_oracles[0].clone(),
            ),
        )
    }
}

/// The purchase of a subscription pass, as the host is asked to carry it
/// out: the price moves from the buyer to the content's creator, the pass is
/// minted for the receiver, the oracle is asked to renew it when it is due,
/// and the contract is allowed to draw the price of every renewal.
pub struct Purchase {
    pub payer: String,
    pub payee: String,
    pub price: u128,
    pub pass_metadata: TokenMetadata,
    pub pass_receiver: String,
    pub pass_creator: String,
    pub pass_expires_at: u64,
    pub allowance: u128,
    pub ft_account_id: String,
}

/// What the renewal of a pass does: nothing while the pass is valid;
/// afterwards the price moves from the pass's owner to its creator, and the
/// pass counts one more renewal and expires a month later than it did.
/// `expiry` is what the pass's expiry spells. The result names the price,
/// the new count of renewals and the new expiry.
pub open spec fn renewal_spec(pass: JsonToken, expiry: Option<u64>, now: u64) -> Result<
    Option<(u128, u64, u64)>,
    UsecaseError,
> {
    if pass.metadata.expires_at is None {
        Err(UsecaseError::MissingField)
    } else if (match expiry {
        Some(moment) => moment,
        None => 0,
    }) > now {
        Ok(None)
    } else {
        match (pass.metadata.update_no, expiry, pass.metadata.ft_amount) {
            (None, _, _) => Err(UsecaseError::MissingField),
            (Some(update_no), _, _) if update_no == u64::MAX => Err(UsecaseError::Overflow),
            (Some(_), None, _) => Err(UsecaseError::InvalidResponse),
            (Some(_), Some(moment), _) if moment + NANOSECS_IN_MONTH > u64::MAX => Err(
                UsecaseError::Overflow,
            ),
            (Some(_), Some(_), None) => Err(UsecaseError::MissingField),
            (Some(update_no), Some(moment), Some(price)) => Ok(
                Some((price, (update_no + 1) as u64, (moment + NANOSECS_IN_MONTH) as u64)),
            ),
        }
    }
}

/// Whether `renewed` is what the renewal of `pass` yields, given what its
/// expiry was read as: the refusal, nothing to do, or the payment and the
/// pass's metadata with one more renewal counted and the later expiry, all
/// else as it was.
pub open spec fn renewed_as(
    pass: JsonToken,
    expiry: Option<u64>,
    now: u64,
    renewed: Result<Option<PaidUpdate>, UsecaseError>,
) -> bool {
    match renewal_spec(pass, expiry, now) {
        Err(e) => renewed matches Err(refusal) && refusal == e,
        Ok(None) => renewed matches Ok(None),
        Ok(Some((price, renewals, expires))) => renewed matches Ok(Some(update))
            && update.from == pass.owner_id && update.to == pass.creator_id && update.amount
            == price && update.token_id == pass.token_id && update.metadata.update_no == Some(
            renewals,
        ) && (update.metadata.expires_at matches Some(text)
            && to_string_from_display_ensures::<u64>(&expires, text)) && update.metadata.title
            == pass.metadata.title && update.metadata.description == pass.metadata.description
            && update.metadata.max_updates == pass.metadata.max_updates
            && update.metadata.ft_account_id == pass.metadata.ft_account_id
            && update.metadata.ft_amount == pass.metadata.ft_amount && update.metadata.issued_at
            == pass.metadata.issued_at && update.metadata.starts_at == pass.metadata.starts_at
            && update.metadata.updated_at == pass.metadata.updated_at && update.metadata.extra
            == pass.metadata.extra && update.metadata.reference == pass.metadata.reference,
    }
}

/// The renewal of a pass whose expiry was read as `expiry`, at the moment
/// `now`. While the pass is valid nothing is to be done. Afterwards the price
/// moves from the pass's owner to its creator, and the pass counts one more
/// renewal and expires a month later. A pass that lacks its expiry, its
/// count of renewals or its price yields `MissingField`; an expiry that
/// spells no number `InvalidResponse`; a count or a moment beyond `u64::MAX`
/// `Overflow`.
pub fn renewal_from_expiry(pass: JsonToken, expiry: Option<u64>, now: u64) -> (renewed: Result<
    Option<PaidUpdate>,
    UsecaseError,
>)
    ensures
        renewed_as(pass, expiry, now, renewed),
{
    if pass.metadata.expires_at.is_none() {
        return Err(UsecaseError::MissingField);
    }
    if valid_until(expiry, now) {
        return Ok(None);
    }
    let update_no = match pass.metadata.update_no {
        Some(n) => n,
        None => {
            return Err(UsecaseError::MissingField);
        },
    };
    if update_no == u64::MAX {
        return Err(UsecaseError::Overflow);
    }
    let moment = match expiry {
        Some(moment) => moment,
        None => {
            return Err(UsecaseError::InvalidResponse);
        },
    };
    let expires = match moment.checked_add(NANOSECS_IN_MONTH) {
        Some(expires) => expires,
        None => {
            return Err(UsecaseError::Overflow);
        },
    };
    let price = match pass.metadata.ft_amount {
        Some(price) => price,
        None => {
            return Err(UsecaseError::MissingField);
        },
    };
    let mut updated_metadata = pass.metadata;
    updated_metadata.update_no = Some(update_no + 1);
    updated_metadata.expires_at = Some(expires.to_string());
    Ok(
        Some(
            PaidUpdate {
                from: pass.owner_id,
                to: pass.creator_id,
                amount: price,
                token_id: pass.token_id,
                metadata: updated_metadata,
            },
        ),
    )
}

/// The renewal of a pass at the moment `now`: reads when the pass expires
/// and proceeds as `renewal_from_expiry` does.
pub fn renewal(pass: JsonToken, now: u64) -> (renewed: Result<Option<PaidUpdate>, UsecaseError>)
    ensures
        renewed_as(
            pass,
            match pass.metadata.expires_at {
                Some(text) => parsed_u64(text@),
                None => None,
            },
            now,
            renewed,
        ),
{
    let expiry = match &pass.metadata.expires_at {
        Some(text) => parse_u64(text.as_str()),
        None => None,
    };
    renewal_from_expiry(pass, expiry, now)
}

/// What stands in the way of buying a pass for some content, if anything
/// does, and else the moment the pass expires and the allowance for its
/// renewals.
pub open spec fn purchase_spec(content: JsonToken, max_renewals: u64, now: u64) -> Result<
    (u64, u128),
    UsecaseError,
> {
    match content.token_type {
        None => Err(UsecaseError::MissingField),
        Some(token_type) => if token_type@ != CONTENT_NFT_TYPE@ {
            Err(UsecaseError::NotContent)
        } else if now + NANOSECS_IN_MONTH > u64::MAX {
            Err(UsecaseError::Overflow)
        } else {
            match (content.metadata.ft_amount, content.metadata.ft_account_id) {
                (Some(price), Some(_)) => if max_renewals * price > u128::MAX {
                    Err(UsecaseError::Overflow)
                } else {
                    Ok(((now + NANOSECS_IN_MONTH) as u64, (max_renewals * price) as u128))
                },
                _ => Err(UsecaseError::MissingField),
            }
        },
    }
}

/// The purchase of a pass for `content` at the moment `now`, by the signer,
/// for the caller. The token must be content one can subscribe to
/// (`MissingField` without a type, `NotContent` with another) and must name
/// its price and the currency (`MissingField`). The pass expires in a month
/// and may be renewed `max_renewals` times; the contract is allowed to draw
/// the price of every renewal. A moment or an allowance beyond what its
/// type holds yields `Overflow`.
pub fn purchase(
    content: JsonToken,
    max_renewals: u64,
    now: u64,
    signer_id: String,
    predecessor_id: String,
) -> (bought: Result<Purchase, UsecaseError>)
    ensures
        match purchase_spec(content, max_renewals, now) {
            Err(e) => bought matches Err(refusal) && refusal == e,
            Ok((expires, allowance)) => {
                &&& bought matches Ok(p)
                &&& p.payer == signer_id
                &&& p.payee@ == content.creator_id@
                &&& Some(p.price) == content.metadata.ft_amount
                &&& p.pass_receiver == predecessor_id
                &&& p.pass_creator == content.creator_id
                &&& p.pass_expires_at == expires
                &&& p.allowance == allowance
                &&& Some(p.ft_account_id) == content.metadata.ft_account_id
                &&& p.pass_metadata.title matches Some(t) && t@ == "Subscription pass NFT"@
                &&& p.pass_metadata.description matches Some(d) && d@ == "Subscription pass NFT"@
                &&& p.pass_metadata.reference matches Some(r) && r@ == NFT_CONTRACT_ACCOUNT@ + "||"@
                    + content.token_id@
                &&& p.pass_metadata.max_updates == Some(max_renewals)
                &&& p.pass_metadata.update_no == Some(0u64)
                &&& p.pass_metadata.expires_at matches Some(text)
                    && to_string_from_display_ensures::<u64>(&expires, text)
                &&& p.pass_metadata.ft_account_id is None
                &&& p.pass_metadata.ft_amount is None
                &&& p.pass_metadata.extra is None
                &&& p.pass_metadata.issued_at is None
                &&& p.pass_metadata.starts_at is None
                &&& p.pass_metadata.updated_at is None
            },
        },
{
    let wanted = String::from_str(CONTENT_NFT_TYPE);
    match &content.token_type {
        None => {
            return Err(UsecaseError::MissingField);
        },
        Some(token_type) => {
            if *token_type != wanted {
                return Err(UsecaseError::NotContent);
            }
        },
    }
    let pass_expires_at = match now.checked_add(NANOSECS_IN_MONTH) {
        Some(moment) => moment,
        None => {
            return Err(UsecaseError::Overflow);
        },
    };
    let price = match content.metadata.ft_amount {
        Some(price) => price,
        None => {
            return Err(UsecaseError::MissingField);
        },
    };
    let ft_account_id = match content.metadata.ft_account_id {
        Some(id) => id,
        None => {
            return Err(UsecaseError::MissingField);
        },
    };
    let allowance = match (max_renewals as u128).checked_mul(price) {
        Some(allowance) => allowance,
        None => {
            return Err(UsecaseError::Overflow);
        },
    };
    let reference = String::from_str(NFT_CONTRACT_ACCOUNT).concat("||").concat(
        content.token_id.as_str(),
    );
    let pass_metadata = TokenMetadata {
        title: Some(String::from_str("Subscription pass NFT")),
        description: Some(String::from_str("Subscription pass NFT")),
        reference: Some(reference),
        ft_account_id: None,
        ft_amount: None,
        max_updates: Some(max_renewals),
        extra: None,
        update_no: Some(0),
        issued_at: None,
        starts_at: None,
        updated_at: None,
        expires_at: Some(pass_expires_at.to_string()),
    };
    Ok(
        Purchase {
            payer: signer_id,
            payee: content.creator_id.clone(),
            price,
            pass_metadata,
            pass_receiver: predecessor_id,
            pass_creator: content.creator_id,
            pass_expires_at,
            allowance,
            ft_account_id,
        },
    )
}

} // verus!
