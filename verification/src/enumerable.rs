use vstd::prelude::*;
use crate::keyed::{distinct, find, keys_of, lemma_position_unique, text_views};
use crate::nft::{json_views, members, JsonToken, JsonTokenView, NonFungibleToken, TokenSet};

verus! {

/// Where a page ends: `limit` items after `from_index`, or at the end of
/// the items where there are fewer.
pub open spec fn page_end(from_index: u64, limit: u64, len: int) -> int {
    if from_index + limit <= len {
        from_index + limit
    } else {
        len
    }
}

/// Where a page starts: at `from_index`, or at its end where `from_index`
/// lies beyond the items.
pub open spec fn page_start(from_index: u64, limit: u64, len: int) -> int {
    if from_index <= page_end(from_index, limit, len) {
        from_index as int
    } else {
        page_end(from_index, limit, len)
    }
}

/// The page of at most `limit` items that starts at `from_index`.
pub open spec fn page<A>(items: Seq<A>, from_index: u64, limit: u64) -> Seq<A> {
    items.subrange(
        page_start(from_index, limit, items.len() as int),
        page_end(from_index, limit, items.len() as int),
    )
}

/// The label under which a token's type is compared: the type, or
/// "No type" for a token without one.
pub open spec fn type_label(token_type: Option<Seq<char>>) -> Seq<char> {
    match token_type {
        Some(t) => t,
        None => "No type"@,
    }
}

/// The bounds of the page of at most `limit` items that starts at
/// `from_index`, among `len` items.
pub fn page_bounds(from_index: u64, limit: u64, len: usize) -> (bounds: (usize, usize))
    ensures
        bounds.0 == page_start(from_index, limit, len as int),
        bounds.1 == page_end(from_index, limit, len as int),
        bounds.0 <= bounds.1 <= len,
{
    if from_index >= len as u64 {
        (len, len)
    } else {
        let start = from_index as usize;
        let left = len - start;
        if limit < left as u64 {
            (start, start + limit as usize)
        } else {
            (start, len)
        }
    }
}

impl NonFungibleToken {
    /// The tokens with the identifiers `ids[start..end]`, as the catalog
    /// shows them.
    fn show_all(&self, ids: &Vec<String>, start: usize, end: usize) -> (tokens: Vec<JsonToken>)
        requires
            self.wf(),
            start <= end <= ids@.len(),
            forall|k: int| start <= k < end ==> self.ids().contains(#[trigger] ids@[k]@),
        ensures
            json_views(tokens@) == text_views(ids@).subrange(
                start as int,
                end as int,
            ).map_values(|id: Seq<char>| self.shown(id)),
    {
        let mut tmp: Vec<JsonToken> = Vec::new();
        let mut i: usize = start;
        while i < end
            invariant
                self.wf(),
                start <= i <= end <= ids@.len(),
                forall|k: int| start <= k < end ==> self.ids().contains(#[trigger] ids@[k]@),
                tmp@.len() == i - start,
                forall|k: int|
                    0 <= k < i - start ==> (#[trigger] tmp@[k])@ == self.shown(ids@[start + k]@),
            decreases end - i,
        {
            match self.nft_token(&ids[i]) {
                Some(token) => {
                    tmp.push(token);
                },
                None => {
                    assert(false);
                },
            }
            i += 1;
        }
        assert(json_views(tmp@) =~= text_views(ids@).subrange(
            start as int,
            end as int,
        ).map_values(|id: Seq<char>| self.shown(id)));
        tmp
    }

    /// The page of at most `limit` tokens that starts at `from_index`, of
    /// the tokens kept under `key` in `sets`.
    fn show_page(&self, sets: &Vec<TokenSet>, key: &String, from_index: u64, limit: u64) -> (tokens:
        Vec<JsonToken>)
        requires
            self.wf(),
            distinct(keys_of(sets@)),
            crate::nft::all_known(sets@, self.ids()),
        ensures
            json_views(tokens@) == page(members(sets@, key@), from_index, limit).map_values(
                |id: Seq<char>| self.shown(id),
            ),
    {
        match find(sets, key) {
            None => {
                let tokens: Vec<JsonToken> = Vec::new();
                assert(json_views(tokens@) =~= page(
                    members(sets@, key@),
                    from_index,
                    limit,
                ).map_values(|id: Seq<char>| self.shown(id)));
                tokens
            },
            Some(i) => {
                proof {
                    lemma_position_unique(keys_of(sets@), i as int);
                }
                let keys = &sets[i].token_ids;
                let (start, end) = page_bounds(from_index, limit, keys.len());
                self.show_all(keys, start, end)
            },
        }
    }

    /// The page of at most `limit` tokens that starts at `from_index`, of
    /// all tokens in the order in which they were minted.
    pub fn nft_tokens(&self, from_index: u64, limit: u64) -> (tokens: Vec<JsonToken>)
        ensures
            json_views(tokens@) == page(self.catalog(), from_index, limit),
    {
        let mut tmp: Vec<JsonToken> = Vec::new();
        let (start, end) = page_bounds(from_index, limit, self.tokens_by_id.len());
        let mut i: usize = start;
        while i < end
            invariant
                start <= i <= end <= self.tokens_by_id@.len(),
                tmp@.len() == i - start,
                forall|k: int|
                    0 <= k < i - start ==> (#[trigger] tmp@[k])@ == self.catalog()[start + k],
            decreases end - i,
        {
            tmp.push(self.show(i));
            i += 1;
        }
        assert(json_views(tmp@) =~= page(self.catalog(), from_index, limit));
        tmp
    }

    /// The tokens with the identifiers given, in the order given. Each
    /// identifier must be that of a token.
    pub fn nft_tokens_batch(&self, token_ids: Vec<String>) -> (tokens: Vec<JsonToken>)
        requires
            self.wf(),
            forall|k: int|
                0 <= k < token_ids@.len() ==> self.ids().contains(#[trigger] token_ids@[k]@),
        ensures
            json_views(tokens@) == text_views(token_ids@).map_values(
                |id: Seq<char>| self.shown(id),
            ),
    {
        let tokens = self.show_all(&token_ids, 0, token_ids.len());
        assert(text_views(token_ids@).subrange(0, token_ids@.len() as int) =~= text_views(
            token_ids@,
        ));
        tokens
    }

    /// How many tokens of the type `token_type` exist.
    pub fn nft_supply_for_type(&self, token_type: &String) -> (supply: u64)
        requires
            self.wf(),
        ensures
            supply == members(self.tokens_per_type@, token_type@).len(),
    {
        Self::count_members(&self.tokens_per_type, token_type) as u64
    }

    /// The page of at most `limit` tokens that starts at `from_index`, of
    /// the tokens of the type `token_type` in the order in which they
    /// joined it.
    pub fn nft_tokens_for_type(&self, token_type: String, from_index: u64, limit: u64) -> (tokens:
        Vec<JsonToken>)
        requires
            self.wf(),
        ensures
            json_views(tokens@) == page(
                members(self.tokens_per_type@, token_type@),
                from_index,
                limit,
            ).map_values(|id: Seq<char>| self.shown(id)),
    {
        self.show_page(&self.tokens_per_type, &token_type, from_index, limit)
    }

    /// How many tokens `account_id` owns.
    pub fn nft_supply_for_owner(&self, account_id: String) -> (supply: u64)
        requires
            self.wf(),
        ensures
            supply == members(self.tokens_per_owner@, account_id@).len(),
    {
        Self::count_members(&self.tokens_per_owner, &account_id) as u64
    }

    /// The page of at most `limit` tokens that starts at `from_index`, of
    /// the tokens that `account_id` owns in the order in which it got them.
    pub fn nft_tokens_for_owner(&self, account_id: String, from_index: u64, limit: u64) -> (tokens:
        Vec<JsonToken>)
        requires
            self.wf(),
        ensures
            json_views(tokens@) == page(
                members(self.tokens_per_owner@, account_id@),
                from_index,
                limit,
            ).map_values(|id: Seq<char>| self.shown(id)),
    {
        self.show_page(&self.tokens_per_owner, &account_id, from_index, limit)
    }

    /// Of the page of at most `limit` tokens that starts at `from_index`
    /// among the tokens that `account_id` owns, those of the type
    /// `token_type`, in their order. A token without a type counts as one
    /// of the type "No type".
    pub fn nft_tokens_for_owner_by_type(
        &self,
        account_id: String,
        from_index: u64,
        limit: u64,
        token_type: String,
    ) -> (tokens: Vec<JsonToken>)
        requires
            self.wf(),
        ensures
            json_views(tokens@) == page(
                members(self.tokens_per_owner@, account_id@),
                from_index,
                limit,
            ).map_values(|id: Seq<char>| self.shown(id)).filter(
                |shown: JsonTokenView| type_label(shown.token_type) == token_type@,
            ),
    {
        let all_owner_tokens = self.nft_tokens_for_owner(account_id, from_index, limit);
        let ghost all = json_views(all_owner_tokens@);
        let ghost wanted = |shown: JsonTokenView| type_label(shown.token_type) == token_type@;
        let no_type = String::from_str("No type");
        let mut tmp: Vec<JsonToken> = Vec::new();
        let mut i: usize = 0;
        assert(all.take(0).filter(wanted) =~= Seq::<JsonTokenView>::empty());
        while i < all_owner_tokens.len()
            invariant
                i <= all_owner_tokens@.len(),
                all == json_views(all_owner_tokens@),
                no_type@ == "No type"@,
                wanted == |shown: JsonTokenView| type_label(shown.token_type) == token_type@,
                json_views(tmp@) == all.take(i as int).filter(wanted),
            decreases all_owner_tokens.len() - i,
        {
            let token = &all_owner_tokens[i];
            let matches = match &token.token_type {
                Some(t) => *t == token_type,
                None => no_type == token_type,
            };
            proof {
                assert(matches == wanted(all[i as int]));
                assert(all.take(i + 1).drop_last() =~= all.take(i as int));
                assert(all.take(i + 1).last() == all[i as int]);
                reveal(Seq::filter);
            }
            if matches {
                tmp.push(token.clone());
                assert(json_views(tmp@) =~= all.take(i as int).filter(wanted).push(all[i as int]));
            }
            i += 1;
        }
        assert(all.take(i as int) =~= all);
        tmp
    }
}

} // verus!
