use vstd::prelude::*;
use crate::keyed::{
    distinct, find, keys_distinct, keys_of, lemma_position_unique, lemma_push_distinct, position,
    text_views, Keyed,
};
use crate::metadata::clone_optional;

verus! {

/// What a token says of itself.
pub struct TokenMetadata {
    pub title: Option<String>,
    pub description: Option<String>,
    pub media: Option<String>,
    pub media_hash: Option<String>,
    pub max_updates: Option<u64>,
    pub update_no: Option<u64>,
    pub ft_account_id: Option<String>,
    pub ft_amount: Option<u128>,
    pub issued_at: Option<String>,
    pub expires_at: Option<String>,
    pub starts_at: Option<String>,
    pub updated_at: Option<String>,
    pub extra: Option<String>,
    pub reference: Option<String>,
    pub reference_hash: Option<String>,
}

impl Clone for TokenMetadata {
    fn clone(&self) -> (copy: TokenMetadata)
        ensures
            copy == *self,
    {
        TokenMetadata {
            title: clone_optional(&self.title),
            description: clone_optional(&self.description),
            media: clone_optional(&self.media),
            media_hash: clone_optional(&self.media_hash),
            max_updates: self.max_updates,
            update_no: self.update_no,
            ft_account_id: clone_optional(&self.ft_account_id),
            ft_amount: self.ft_amount,
            issued_at: clone_optional(&self.issued_at),
            expires_at: clone_optional(&self.expires_at),
            starts_at: clone_optional(&self.starts_at),
            updated_at: clone_optional(&self.updated_at),
            extra: clone_optional(&self.extra),
            reference: clone_optional(&self.reference),
            reference_hash: clone_optional(&self.reference_hash),
        }
    }
}

/// What the catalog says of itself.
pub struct NFTMetadata {
    pub spec: String,
    pub name: String,
    pub symbol: String,
    pub icon: Option<String>,
    pub base_uri: Option<String>,
    pub reference: Option<String>,
    pub reference_hash: Option<String>,
}

/// An account approved to move a token, with the number of its approval.
pub struct Approval {
    pub account_id: String,
    pub approval_id: u64,
}

/// An account's share in the proceeds of a token's sales.
pub struct RoyaltyShare {
    pub account_id: String,
    pub share: u32,
}

/// Approvals as the contracts see them.
pub open spec fn approvals_view(approvals: Seq<Approval>) -> Seq<(Seq<char>, u64)> {
    approvals.map_values(|a: Approval| (a.account_id@, a.approval_id))
}

/// Royalty shares as the contracts see them.
pub open spec fn royalty_view(shares: Seq<RoyaltyShare>) -> Seq<(Seq<char>, u32)> {
    shares.map_values(|r: RoyaltyShare| (r.account_id@, r.share))
}

/// An optional string as the contracts see it.
pub open spec fn optional_view(text: Option<String>) -> Option<Seq<char>> {
    match text {
        Some(s) => Some(s@),
        None => None,
    }
}

/// A copy of a list of approvals.
pub fn clone_approvals(approvals: &Vec<Approval>) -> (copy: Vec<Approval>)
    ensures
        approvals_view(copy@) == approvals_view(approvals@),
{
    let mut copy: Vec<Approval> = Vec::new();
    let mut i: usize = 0;
    while i < approvals.len()
        invariant
            i <= approvals.len(),
            copy@.len() == i,
            forall|j: int|
                0 <= j < i ==> (#[trigger] copy@[j]).account_id@ == approvals@[j].account_id@
                    && copy@[j].approval_id == approvals@[j].approval_id,
        decreases approvals.len() - i,
    {
        copy.push(
            Approval {
                account_id: approvals[i].account_id.clone(),
                approval_id: approvals[i].approval_id,
            },
        );
        i += 1;
    }
    assert(approvals_view(copy@) =~= approvals_view(approvals@));
    copy
}

/// A copy of a list of royalty shares.
pub fn clone_royalty(shares: &Vec<RoyaltyShare>) -> (copy: Vec<RoyaltyShare>)
    ensures
        royalty_view(copy@) == royalty_view(shares@),
{
    let mut copy: Vec<RoyaltyShare> = Vec::new();
    let mut i: usize = 0;
    while i < shares.len()
        invariant
            i <= shares.len(),
            copy@.len() == i,
            forall|j: int|
                0 <= j < i ==> (#[trigger] copy@[j]).account_id@ == shares@[j].account_id@
                    && copy@[j].share == shares@[j].share,
        decreases shares.len() - i,
    {
        copy.push(
            RoyaltyShare { account_id: shares[i].account_id.clone(), share: shares[i].share },
        );
        i += 1;
    }
    assert(royalty_view(copy@) =~= royalty_view(shares@));
    copy
}

/// A token as the catalog keeps it.
pub struct Token {
    pub creator_id: String,
    pub owner_id: String,
    pub approved_account_ids: Vec<Approval>,
    pub next_approval_id: u64,
    pub royalty: Vec<RoyaltyShare>,
    pub token_type: Option<String>,
}

/// A token as the catalog shows it.
pub struct JsonToken {
    pub token_id: String,
    pub owner_id: String,
    pub creator_id: String,
    pub metadata: TokenMetadata,
    pub approved_account_ids: Vec<Approval>,
    pub royalty: Vec<RoyaltyShare>,
    pub token_type: Option<String>,
}

/// A shown token as the contracts see it.
pub struct JsonTokenView {
    pub token_id: Seq<char>,
    pub owner_id: Seq<char>,
    pub creator_id: Seq<char>,
    pub metadata: TokenMetadata,
    pub approved_account_ids: Seq<(Seq<char>, u64)>,
    pub royalty: Seq<(Seq<char>, u32)>,
    pub token_type: Option<Seq<char>>,
}

impl View for JsonToken {
    type V = JsonTokenView;

    open spec fn view(&self) -> JsonTokenView {
        JsonTokenView {
            token_id: self.token_id@,
            owner_id: self.owner_id@,
            creator_id: self.creator_id@,
            metadata: self.metadata,
            approved_account_ids: approvals_view(self.approved_account_ids@),
            royalty: royalty_view(self.royalty@),
            token_type: optional_view(self.token_type),
        }
    }
}

impl Clone for JsonToken {
    fn clone(&self) -> (copy: JsonToken)
        ensures
            copy@ == self@,
    {
        JsonToken {
            token_id: self.token_id.clone(),
            owner_id: self.owner_id.clone(),
            creator_id: self.creator_id.clone(),
            metadata: self.metadata.clone(),
            approved_account_ids: clone_approvals(&self.approved_account_ids),
            royalty: clone_royalty(&self.royalty),
            token_type: clone_optional(&self.token_type),
        }
    }
}

/// Shown tokens as the contracts see them.
pub open spec fn json_views(tokens: Seq<JsonToken>) -> Seq<JsonTokenView> {
    tokens.map_values(|t: JsonToken| t@)
}

/// A token of the catalog: its identifier, the token and its metadata.
pub struct TokenRecord {
    pub token_id: String,
    pub token: Token,
    pub metadata: TokenMetadata,
}

impl Keyed for TokenRecord {
    open spec fn key_view(&self) -> Seq<char> {
        self.token_id@
    }

    fn key(&self) -> (key: &String) {
        &self.token_id
    }
}

/// How the catalog shows a token that it keeps.
pub open spec fn json_of(record: TokenRecord) -> JsonTokenView {
    JsonTokenView {
        token_id: record.token_id@,
        owner_id: record.token.owner_id@,
        creator_id: record.token.creator_id@,
        metadata: record.metadata,
        approved_account_ids: approvals_view(record.token.approved_account_ids@),
        royalty: royalty_view(record.token.royalty@),
        token_type: optional_view(record.token.token_type),
    }
}

/// The identifiers of some tokens, in the order in which they were added,
/// kept under an owner or under a type.
pub struct TokenSet {
    pub key: String,
    pub token_ids: Vec<String>,
}

impl Keyed for TokenSet {
    open spec fn key_view(&self) -> Seq<char> {
        self.key@
    }

    fn key(&self) -> (key: &String) {
        &self.key
    }
}

/// How many tokens of a type may exist.
pub struct SupplyCap {
    pub token_type: String,
    pub cap: u64,
}

impl Keyed for SupplyCap {
    open spec fn key_view(&self) -> Seq<char> {
        self.token_type@
    }

    fn key(&self) -> (key: &String) {
        &self.token_type
    }
}

/// The identifiers kept under `key`: none, where nothing is kept under it.
pub open spec fn members(sets: Seq<TokenSet>, key: Seq<char>) -> Seq<Seq<char>> {
    if keys_of(sets).contains(key) {
        text_views(sets[position(keys_of(sets), key)].token_ids@)
    } else {
        Seq::empty()
    }
}

/// Every identifier kept in a set is the identifier of a token.
pub open spec fn all_known(sets: Seq<TokenSet>, ids: Seq<Seq<char>>) -> bool {
    forall|i: int, k: int|
        0 <= i < sets.len() && 0 <= k < sets[i].token_ids@.len() ==> ids.contains(
            #[trigger] sets[i].token_ids@[k]@,
        )
}

/// Sets of identifiers as the contracts see them: each key with the
/// identifiers kept under it.
pub open spec fn sets_view(sets: Seq<TokenSet>) -> Seq<(Seq<char>, Seq<Seq<char>>)> {
    sets.map_values(|s: TokenSet| (s.key@, text_views(s.token_ids@)))
}

/// The sets with `id` added at the end of the set kept under `key`; where
/// nothing was kept under `key`, a set of that one identifier is added.
pub open spec fn with_member(
    sets: Seq<(Seq<char>, Seq<Seq<char>>)>,
    key: Seq<char>,
    id: Seq<char>,
) -> Seq<(Seq<char>, Seq<Seq<char>>)> {
    let keys = sets.map_values(|s: (Seq<char>, Seq<Seq<char>>)| s.0);
    if keys.contains(key) {
        let i = position(keys, key);
        sets.update(i, (key, sets[i].1.push(id)))
    } else {
        sets.push((key, seq![id]))
    }
}

/// The cap on the supply of a type, where one is set.
pub open spec fn cap_of(caps: Seq<SupplyCap>, token_type: Seq<char>) -> Option<u64> {
    if keys_of(caps).contains(token_type) {
        Some(caps[position(keys_of(caps), token_type)].cap)
    } else {
        None
    }
}

/// What stands in the way of minting a token, if anything does: its
/// identifier must be new, and where it has a type, a cap must be set for
/// the type and must not be reached.
pub open spec fn mint_refusal(
    ids: Seq<Seq<char>>,
    types: Seq<TokenSet>,
    caps: Seq<SupplyCap>,
    id: Seq<char>,
    token_type: Option<Seq<char>>,
) -> Option<NftError> {
    if ids.contains(id) {
        Some(NftError::TokenExists)
    } else {
        match token_type {
            None => None,
            Some(t) => match cap_of(caps, t) {
                None => Some(NftError::UnknownTokenType),
                Some(cap) => if members(types, t).len() >= cap {
                    Some(NftError::SupplyCapReached)
                } else {
                    None
                },
            },
        }
    }
}

/// Adds `id` at the end of the set kept under `key`, or adds a set of that
/// one identifier where nothing was kept under `key`.
fn add_to_set(sets: &mut Vec<TokenSet>, key: &String, id: String)
    requires
        distinct(keys_of(old(sets)@)),
    ensures
        distinct(keys_of(final(sets)@)),
        sets_view(final(sets)@) == with_member(sets_view(old(sets)@), key@, id@),
        forall|ids: Seq<Seq<char>>|
            all_known(old(sets)@, ids) && ids.contains(id@) ==> #[trigger] all_known(
                final(sets)@,
                ids,
            ),
{
    let ghost keys = keys_of(sets@);
    assert(keys =~= sets_view(sets@).map_values(|s: (Seq<char>, Seq<Seq<char>>)| s.0));
    match find(sets, key) {
        Some(i) => {
            proof {
                lemma_position_unique(keys, i as int);
            }
            let ghost before = sets@[i as int].token_ids@;
            sets[i].token_ids.push(id);
            assert(keys_of(sets@) =~= keys);
            assert(text_views(sets@[i as int].token_ids@) =~= text_views(before).push(id@));
            assert(sets_view(sets@) =~= with_member(sets_view(old(sets)@), key@, id@));
            assert forall|ids: Seq<Seq<char>>|
                all_known(old(sets)@, ids) && ids.contains(id@) implies #[trigger] all_known(
                sets@,
                ids,
            ) by {
                assert forall|a: int, k: int|
                    0 <= a < sets@.len() && 0 <= k < sets@[a].token_ids@.len() implies ids.contains(
                    #[trigger] sets@[a].token_ids@[k]@,
                ) by {
                    if a == i && k == before.len() {
                    } else {
                        assert(sets@[a].token_ids@[k] == old(sets)@[a].token_ids@[k]);
                    }
                }
            }
        },
        None => {
            proof {
                lemma_push_distinct(keys, key@);
            }
            let mut token_ids: Vec<String> = Vec::new();
            token_ids.push(id);
            sets.push(TokenSet { key: key.clone(), token_ids });
            assert(keys_of(sets@) =~= keys.push(key@));
            assert(text_views(sets@[sets@.len() - 1].token_ids@) =~= seq![id@]);
            assert(sets_view(sets@) =~= with_member(sets_view(old(sets)@), key@, id@));
            assert forall|ids: Seq<Seq<char>>|
                all_known(old(sets)@, ids) && ids.contains(id@) implies #[trigger] all_known(
                sets@,
                ids,
            ) by {
                assert forall|a: int, k: int|
                    0 <= a < sets@.len() && 0 <= k < sets@[a].token_ids@.len() implies ids.contains(
                    #[trigger] sets@[a].token_ids@[k]@,
                ) by {
                    if a < old(sets)@.len() {
                        assert(sets@[a].token_ids@[k] == old(sets)@[a].token_ids@[k]);
                    }
                }
            }
        },
    }
}

/// Sets that hold known identifiers only still do so when an identifier is
/// added to those known.
proof fn lemma_known_after_push(sets: Seq<TokenSet>, ids: Seq<Seq<char>>, id: Seq<char>)
    requires
        all_known(sets, ids),
    ensures
        all_known(sets, ids.push(id)),
{
    assert forall|i: int, k: int|
        0 <= i < sets.len() && 0 <= k < sets[i].token_ids@.len() implies ids.push(id).contains(
        #[trigger] sets[i].token_ids@[k]@,
    ) by {
        let known = sets[i].token_ids@[k]@;
        assert(ids.contains(known));
        let j = choose|j: int| 0 <= j < ids.len() && ids[j] == known;
        assert(ids.push(id)[j] == known);
    }
}

/// Why the catalog refused to mint a token.
#[derive(Clone, Copy, Debug, PartialEq, Eq, Structural)]
pub enum NftError {
    /// A token with the identifier exists already.
    TokenExists,
    /// No supply cap is set for the token's type.
    UnknownTokenType,
    /// As many tokens of the type exist as may exist.
    SupplyCapReached,
}

/// The catalog of non-fungible tokens.
pub struct NonFungibleToken {
    /// The account that owns the catalog.
    pub owner_id: String,
    /// For each owner, the tokens it owns.
    pub tokens_per_owner: Vec<TokenSet>,
    /// The tokens, in the order in which they were minted.
    pub tokens_by_id: Vec<TokenRecord>,
    /// For each type, the tokens of that type.
    pub tokens_per_type: Vec<TokenSet>,
    /// For each type, how many tokens of it may exist.
    pub supply_cap_by_type: Vec<SupplyCap>,
    /// What the catalog says of itself.
    pub metadata: NFTMetadata,
}

impl NonFungibleToken {
    /// The identifiers of all tokens, in the order in which they were
    /// minted.
    pub open spec fn ids(&self) -> Seq<Seq<char>> {
        keys_of(self.tokens_by_id@)
    }

    /// All tokens as the catalog shows them, in the order in which they were
    /// minted.
    pub open spec fn catalog(&self) -> Seq<JsonTokenView> {
        self.tokens_by_id@.map_values(|r: TokenRecord| json_of(r))
    }

    /// The token with the identifier `id`, as the catalog shows it.
    pub open spec fn shown(&self, id: Seq<char>) -> JsonTokenView {
        self.catalog()[position(self.ids(), id)]
    }

    /// The catalog's invariant: identifiers, owners, types and capped types
    /// are each kept once, and the sets hold identifiers of tokens only.
    pub open spec fn wf(&self) -> bool {
        &&& distinct(self.ids())
        &&& distinct(keys_of(self.tokens_per_owner@))
        &&& distinct(keys_of(self.tokens_per_type@))
        &&& distinct(keys_of(self.supply_cap_by_type@))
        &&& all_known(self.tokens_per_owner@, self.ids())
        &&& all_known(self.tokens_per_type@, self.ids())
    }

    /// A catalog owned by `owner_id`, without tokens, with the supply caps
    /// given. Of two caps for one type the first counts.
    pub fn new(owner_id: String, metadata: NFTMetadata, supply_cap_by_type: Vec<SupplyCap>) -> (nft:
        NonFungibleToken)
        ensures
            nft.wf(),
            nft.owner_id == owner_id,
            nft.metadata == metadata,
            nft.ids() == Seq::<Seq<char>>::empty(),
            nft.tokens_per_owner@ == Seq::<TokenSet>::empty(),
            nft.tokens_per_type@ == Seq::<TokenSet>::empty(),
            forall|t: Seq<char>| #[trigger]
                keys_of(nft.supply_cap_by_type@).contains(t) <==> keys_of(
                    supply_cap_by_type@,
                ).contains(t),
    {
        let mut caps: Vec<SupplyCap> = Vec::new();
        let mut supply_cap_by_type = supply_cap_by_type;
        let ghost given = supply_cap_by_type@;
        while supply_cap_by_type.len() > 0
            invariant
                distinct(keys_of(caps@)),
                forall|t: Seq<char>| #[trigger]
                    keys_of(given).contains(t) <==> keys_of(caps@).contains(t) || keys_of(
                        supply_cap_by_type@,
                    ).contains(t),
            decreases supply_cap_by_type.len(),
        {
            let ghost before = supply_cap_by_type@;
            let ghost kept = caps@;
            let cap = supply_cap_by_type.remove(0);
            let known = find(&caps, &cap.token_type).is_some();
            if !known {
                proof {
                    lemma_push_distinct(keys_of(caps@), cap.token_type@);
                    assert(keys_of(caps@.push(cap)) =~= keys_of(caps@).push(cap.token_type@));
                }
                caps.push(cap);
            }
            proof {
                assert forall|t: Seq<char>| #[trigger]
                    keys_of(given).contains(t) <==> keys_of(caps@).contains(t) || keys_of(
                        supply_cap_by_type@,
                    ).contains(t) by {
                    let rest = keys_of(supply_cap_by_type@);
                    if keys_of(before).contains(t) {
                        let j = choose|j: int| 0 <= j < before.len() && keys_of(before)[j] == t;
                        if j > 0 {
                            assert(rest[j - 1] == t);
                        }
                    }
                    if rest.contains(t) {
                        let j = choose|j: int| 0 <= j < rest.len() && rest[j] == t;
                        assert(keys_of(before)[j + 1] == t);
                    }
                    if keys_of(kept).contains(t) {
                        let j = choose|j: int| 0 <= j < kept.len() && keys_of(kept)[j] == t;
                        assert(keys_of(caps@)[j] == t);
                    }
                    if keys_of(caps@).contains(t) && !keys_of(kept).contains(t) {
                        let j = choose|j: int| 0 <= j < caps@.len() && keys_of(caps@)[j] == t;
                        if j < kept.len() {
                            assert(keys_of(kept)[j] == t);
                        }
                        assert(keys_of(before)[0] == before[0].token_type@);
                    }
                    if t == before[0].token_type@ {
                        assert(keys_of(before)[0] == t);
                        if !known {
                            assert(keys_of(caps@)[kept.len() as int] == t);
                        }
                    }
                }
            }
        }
        let nft = NonFungibleToken {
            owner_id,
            tokens_per_owner: Vec::new(),
            tokens_by_id: Vec::new(),
            tokens_per_type: Vec::new(),
            supply_cap_by_type: caps,
            metadata,
        };
        assert(nft.ids() =~= Seq::<Seq<char>>::empty());
        assert(keys_of(nft.tokens_per_owner@) =~= Seq::<Seq<char>>::empty());
        assert(keys_of(nft.tokens_per_type@) =~= Seq::<Seq<char>>::empty());
        nft
    }

    /// The token with the identifier `token_id`, as the catalog shows it, or
    /// `None` where there is no such token.
    pub fn nft_token(&self, token_id: &String) -> (token: Option<JsonToken>)
        requires
            self.wf(),
        ensures
            match token {
                Some(shown) => self.ids().contains(token_id@) && shown@ == self.shown(token_id@),
                None => !self.ids().contains(token_id@),
            },
    {
        match find(&self.tokens_by_id, token_id) {
            None => None,
            Some(i) => {
                proof {
                    lemma_position_unique(self.ids(), i as int);
                }
                Some(self.show(i))
            },
        }
    }

    /// The token at place `i`, as the catalog shows it.
    pub(crate) fn show(&self, i: usize) -> (shown: JsonToken)
        requires
            i < self.tokens_by_id@.len(),
        ensures
            shown@ == self.catalog()[i as int],
    {
        let record = &self.tokens_by_id[i];
        JsonToken {
            token_id: record.token_id.clone(),
            owner_id: record.token.owner_id.clone(),
            creator_id: record.token.creator_id.clone(),
            metadata: record.metadata.clone(),
            approved_account_ids: clone_approvals(&record.token.approved_account_ids),
            royalty: clone_royalty(&record.token.royalty),
            token_type: clone_optional(&record.token.token_type),
        }
    }
    /// How many tokens are kept under `key` in `sets`.
    pub(crate) fn count_members(sets: &Vec<TokenSet>, key: &String) -> (count: usize)
        requires
            distinct(keys_of(sets@)),
        ensures
            count == members(sets@, key@).len(),
    {
        match find(sets, key) {
            None => 0,
            Some(i) => {
                proof {
                    lemma_position_unique(keys_of(sets@), i as int);
                }
                sets[i].token_ids.len()
            },
        }
    }

    /// Mints a token. Its identifier is `token_id` or, where none is given,
    /// the decimal form of the number of tokens that will then exist; its
    /// owner is `receiver_id` and its creator `creator_id`, each the caller
    /// where none is named. The token joins the catalog at the end, and the
    /// sets of its owner and of its type, where it has one.
    ///
    /// Fails with `TokenExists` where a token has the identifier already,
    /// with `UnknownTokenType` where it has a type for which no cap is set,
    /// and with `SupplyCapReached` where as many tokens of the type exist as
    /// may exist. A mint that fails changes nothing.
    pub fn nft_mint(
        &mut self,
        caller: &String,
        token_id: Option<String>,
        metadata: TokenMetadata,
        perpetual_royalties: Option<Vec<RoyaltyShare>>,
        receiver_id: Option<String>,
        creator_id: Option<String>,
        token_type: Option<String>,
    ) -> (minted: Result<String, NftError>)
        requires
            old(self).wf(),
        ensures
            final(self).wf(),
            final(self).owner_id == old(self).owner_id,
            final(self).metadata == old(self).metadata,
            final(self).supply_cap_by_type == old(self).supply_cap_by_type,
            match minted {
                Ok(id) => {
                    &&& match token_id {
                        Some(given) => id@ == given@,
                        None => vstd::string::to_string_from_display_ensures::<u128>(
                            &((old(self).ids().len() + 1) as u128),
                            id,
                        ),
                    }
                    &&& mint_refusal(
                        old(self).ids(),
                        old(self).tokens_per_type@,
                        old(self).supply_cap_by_type@,
                        id@,
                        optional_view(token_type),
                    ) is None
                    &&& final(self).catalog() == old(self).catalog().push(
                        JsonTokenView {
                            token_id: id@,
                            owner_id: match receiver_id {
                                Some(receiver) => receiver@,
                                None => caller@,
                            },
                            creator_id: match creator_id {
                                Some(creator) => creator@,
                                None => caller@,
                            },
                            metadata,
                            approved_account_ids: Seq::empty(),
                            royalty: match perpetual_royalties {
                                Some(shares) => royalty_view(shares@),
                                None => Seq::empty(),
                            },
                            token_type: optional_view(token_type),
                        },
                    )
                    &&& sets_view(final(self).tokens_per_owner@) == with_member(
                        sets_view(old(self).tokens_per_owner@),
                        match receiver_id {
                            Some(receiver) => receiver@,
                            None => caller@,
                        },
                        id@,
                    )
                    &&& sets_view(final(self).tokens_per_type@) == match token_type {
                        Some(t) => with_member(sets_view(old(self).tokens_per_type@), t@, id@),
                        None => sets_view(old(self).tokens_per_type@),
                    }
                },
                Err(e) => {
                    &&& *final(self) == *old(self)
                    &&& match token_id {
                        Some(given) => mint_refusal(
                            old(self).ids(),
                            old(self).tokens_per_type@,
                            old(self).supply_cap_by_type@,
                            given@,
                            optional_view(token_type),
                        ) == Some(e),
                        None => exists|id: String|
                            vstd::string::to_string_from_display_ensures::<u128>(
                                &((old(self).ids().len() + 1) as u128),
                                id,
                            ) && #[trigger] mint_refusal(
                                old(self).ids(),
                                old(self).tokens_per_type@,
                                old(self).supply_cap_by_type@,
                                id@,
                                optional_view(token_type),
                            ) == Some(e),
                    }
                },
            },
    {
        let final_token_id = match &token_id {
            Some(given) => given.clone(),
            None => {
                let number: u128 = self.tokens_by_id.len() as u128 + 1;
                number.to_string()
            },
        };
        if find(&self.tokens_by_id, &final_token_id).is_some() {
            assert(mint_refusal(
                self.ids(),
                self.tokens_per_type@,
                self.supply_cap_by_type@,
                final_token_id@,
                optional_view(token_type),
            ) == Some(NftError::TokenExists));
            return Err(NftError::TokenExists);
        }
        match &token_type {
            None => {},
            Some(t) => {
                match find(&self.supply_cap_by_type, t) {
                    None => {
                        assert(mint_refusal(
                            self.ids(),
                            self.tokens_per_type@,
                            self.supply_cap_by_type@,
                            final_token_id@,
                            optional_view(token_type),
                        ) == Some(NftError::UnknownTokenType));
                        return Err(NftError::UnknownTokenType);
                    },
                    Some(c) => {
                        proof {
                            lemma_position_unique(keys_of(self.supply_cap_by_type@), c as int);
                        }
                        let supply = Self::count_members(&self.tokens_per_type, t);
                        if supply as u64 >= self.supply_cap_by_type[c].cap {
                            assert(mint_refusal(
                                self.ids(),
                                self.tokens_per_type@,
                                self.supply_cap_by_type@,
                                final_token_id@,
                                optional_view(token_type),
                            ) == Some(NftError::SupplyCapReached));
                            return Err(NftError::SupplyCapReached);
                        }
                    },
                }
            },
        }
        let owner_id = match &receiver_id {
            Some(receiver) => receiver.clone(),
            None => caller.clone(),
        };
        let creator = match &creator_id {
            Some(creator) => creator.clone(),
            None => caller.clone(),
        };
        let royalty = match perpetual_royalties {
            Some(shares) => shares,
            None => Vec::new(),
        };
        let token = Token {
            creator_id: creator,
            owner_id: owner_id.clone(),
            approved_account_ids: Vec::new(),
            next_approval_id: 0,
            royalty,
            token_type: clone_optional(&token_type),
        };
        proof {
            lemma_push_distinct(self.ids(), final_token_id@);
            lemma_known_after_push(self.tokens_per_owner@, self.ids(), final_token_id@);
            lemma_known_after_push(self.tokens_per_type@, self.ids(), final_token_id@);
        }
        self.tokens_by_id.push(
            TokenRecord { token_id: final_token_id.clone(), token, metadata },
        );
        proof {
            assert(self.ids() =~= old(self).ids().push(final_token_id@));
            assert(self.ids()[self.ids().len() - 1] == final_token_id@);
            assert(self.ids().contains(final_token_id@));
            assert(approvals_view(Seq::<Approval>::empty()) =~= Seq::empty());
            assert(royalty_view(Seq::<RoyaltyShare>::empty()) =~= Seq::empty());
        }
        match &token_type {
            None => {},
            Some(t) => {
                add_to_set(&mut self.tokens_per_type, t, final_token_id.clone());
            },
        }
        add_to_set(&mut self.tokens_per_owner, &owner_id, final_token_id.clone());
        assert(self.catalog() =~= old(self).catalog().push(
            json_of(self.tokens_by_id@[self.tokens_by_id@.len() - 1]),
        ));
        Ok(final_token_id)
    }
    /// Whether every identifier kept in `sets` is the identifier of a token.
    fn sets_known(&self, sets: &Vec<TokenSet>) -> (ok: bool)
        ensures
            ok == all_known(sets@, self.ids()),
    {
        let mut i: usize = 0;
        while i < sets.len()
            invariant
                i <= sets.len(),
                forall|a: int, k: int|
                    0 <= a < i && 0 <= k < sets@[a].token_ids@.len() ==> self.ids().contains(
                        #[trigger] sets@[a].token_ids@[k]@,
                    ),
            decreases sets.len() - i,
        {
            let mut k: usize = 0;
            while k < sets[i].token_ids.len()
                invariant
                    i < sets.len(),
                    k <= sets@[i as int].token_ids@.len(),
                    forall|b: int|
                        0 <= b < k ==> self.ids().contains(
                            #[trigger] sets@[i as int].token_ids@[b]@,
                        ),
                decreases sets@[i as int].token_ids@.len() - k,
            {
                if find(&self.tokens_by_id, &sets[i].token_ids[k]).is_none() {
                    return false;
                }
                k += 1;
            }
            i += 1;
        }
        true
    }

    /// Whether the catalog's invariant holds.
    pub fn is_valid(&self) -> (valid: bool)
        ensures
            valid == self.wf(),
    {
        keys_distinct(&self.tokens_by_id) && keys_distinct(&self.tokens_per_owner)
            && keys_distinct(&self.tokens_per_type) && keys_distinct(&self.supply_cap_by_type)
            && self.sets_known(&self.tokens_per_owner) && self.sets_known(&self.tokens_per_type)
    }
}

} // verus!
