use vstd::prelude::*;
use crate::account::{is_valid_account_id, valid_account_id};
use crate::keyed::{
    distinct, find, keys_distinct, keys_of, lemma_position_unique, lemma_push_distinct, position,
    text_views, texts_distinct, Keyed,
};
use crate::ordered::{
    ascending, keys_ascending, lemma_ascending_distinct, lemma_text_less_irreflexive, lemma_text_less_total,
    lemma_text_less_transitive, less, text_less,
};

verus! {

/// How long a request stays open, in nanoseconds.
pub const EXPIRY_TIME: u64 = 300_000_000_000;

/// The least compute allowance that must be left for the consumer of an
/// answer.
pub const MINIMUM_CONSUMER_GAS_LIMIT: u64 = 1_000_000_000;

/// The compute allowance of a single call.
pub const SINGLE_CALL_GAS: u64 = 100_000_000_000_000;

/// The method that is called once an answer has been delivered.
pub const POST_CALLBACK: &'static str = "fulfillment_post_callback";

/// Why the oracle refused an operation.
#[derive(Clone, Copy, Debug, PartialEq, Eq, Structural)]
pub enum OracleError {
    /// The identifier is not a valid account identifier.
    InvalidAccountId,
    /// The signer is not the oracle's own account.
    NotOwner,
    /// The call does not come from the oracle itself.
    NotOwnerPredecessor,
    /// The signer is neither an authorised node nor the oracle itself.
    NotAuthorized,
    /// The answer would go to the oracle itself.
    CallbackIsOracle,
    /// The account has an open request with the nonce already.
    NonceExists,
    /// The nonce is not above the last one the account used.
    NonceUsed,
    /// A moment would exceed what a `u64` holds.
    Overflow,
    /// Too little compute allowance is left for the consumer.
    InsufficientGas,
    /// The account has no requests.
    AccountNotFound,
    /// The account has no request with the nonce.
    RequestNotFound,
    /// The delivery of the answer failed.
    PromiseFailed,
}

/// A request for data: where the answer goes and until when it is awaited.
pub struct OracleRequest {
    pub callback_address: String,
    pub callback_method: String,
    pub data: String,
    pub expiration: u64,
}

impl Clone for OracleRequest {
    fn clone(&self) -> (copy: OracleRequest)
        ensures
            copy == *self,
    {
        OracleRequest {
            callback_address: self.callback_address.clone(),
            callback_method: self.callback_method.clone(),
            data: self.data.clone(),
            expiration: self.expiration,
        }
    }
}

/// A request with the nonce under which it was made.
pub struct RequestsJSON {
    pub nonce: Option<u128>,
    pub request: OracleRequest,
}

impl Clone for RequestsJSON {
    fn clone(&self) -> (copy: RequestsJSON)
        ensures
            copy == *self,
    {
        RequestsJSON { nonce: self.nonce, request: self.request.clone() }
    }
}

/// The open requests of one account, in ascending order of their nonces; a
/// request without a nonce comes first.
pub struct AccountRequests {
    pub account: String,
    pub requests: Vec<RequestsJSON>,
}

impl Keyed for AccountRequests {
    open spec fn key_view(&self) -> Seq<char> {
        self.account@
    }

    fn key(&self) -> (key: &String) {
        &self.account
    }
}

/// The nonce an account used last.
pub struct AccountNonce {
    pub account: String,
    pub nonce: Option<u128>,
}

impl Keyed for AccountNonce {
    open spec fn key_view(&self) -> Seq<char> {
        self.account@
    }

    fn key(&self) -> (key: &String) {
        &self.account
    }
}

/// The delivery of an answer, as the host is asked to carry it out: the
/// answer goes to the method that the request named, and afterwards the
/// oracle is told to close the request.
pub struct Fulfillment {
    pub callback_address: String,
    pub callback_method: String,
    pub nonce: u128,
    pub answer: String,
    pub deposit: u128,
    pub callback_gas: u64,
    pub post_callback_gas: u64,
}

/// Where a nonce stands in the order of nonces: no nonce comes first.
pub open spec fn rank(nonce: Option<u128>) -> int {
    match nonce {
        Some(n) => n as int,
        None => -1,
    }
}

/// The requests stand in strictly ascending order of their nonces.
pub open spec fn nonces_ascending(requests: Seq<RequestsJSON>) -> bool {
    forall|i: int, j: int|
        0 <= i < j < requests.len() ==> rank((#[trigger] requests[i]).nonce) < rank(
            (#[trigger] requests[j]).nonce,
        )
}

/// Whether one of the requests was made under `nonce`.
pub open spec fn has_nonce(requests: Seq<RequestsJSON>, nonce: Option<u128>) -> bool {
    exists|i: int| 0 <= i < requests.len() && (#[trigger] requests[i]).nonce == nonce
}

/// The request made under `nonce`, where there is one.
pub open spec fn request_at(requests: Seq<RequestsJSON>, nonce: Option<u128>) -> Option<
    OracleRequest,
> {
    if has_nonce(requests, nonce) {
        Some(
            requests[choose|i: int|
                0 <= i < requests.len() && (#[trigger] requests[i]).nonce == nonce].request,
        )
    } else {
        None
    }
}

/// The open requests of `account`, where it has any entry.
pub open spec fn requests_of(all: Seq<AccountRequests>, account: Seq<char>) -> Option<
    Seq<RequestsJSON>,
> {
    if keys_of(all).contains(account) {
        Some(all[position(keys_of(all), account)].requests@)
    } else {
        None
    }
}

/// The nonce that `account` used last, where it has made a request.
pub open spec fn last_nonce(nonces: Seq<AccountNonce>, account: Seq<char>) -> Option<Option<u128>> {
    if keys_of(nonces).contains(account) {
        Some(nonces[position(keys_of(nonces), account)].nonce)
    } else {
        None
    }
}

/// Among requests in ascending order of their nonces, the request found at
/// a place is the request of its nonce.
pub proof fn lemma_request_at(requests: Seq<RequestsJSON>, i: int)
    requires
        nonces_ascending(requests),
        0 <= i < requests.len(),
    ensures
        has_nonce(requests, requests[i].nonce),
        request_at(requests, requests[i].nonce) == Some(requests[i].request),
{
    let j = choose|j: int| 0 <= j < requests.len() && (#[trigger] requests[j]).nonce == requests[i].nonce;
    if j < i {
        assert(rank(requests[j].nonce) < rank(requests[i].nonce));
    } else if i < j {
        assert(rank(requests[i].nonce) < rank(requests[j].nonce));
    }
}

/// Among accounts in ascending order, the requests found at a place are the
/// requests of the account kept there.
pub proof fn lemma_requests_of(all: Seq<AccountRequests>, i: int)
    requires
        ascending(keys_of(all)),
        0 <= i < all.len(),
    ensures
        keys_of(all).contains(all[i].account@),
        requests_of(all, all[i].account@) == Some(all[i].requests@),
{
    lemma_ascending_distinct(keys_of(all));
    lemma_position_unique(keys_of(all), i);
}

/// Whether the nonce `a` comes before the nonce `b`.
fn nonce_before(a: Option<u128>, b: Option<u128>) -> (before: bool)
    ensures
        before == (rank(a) < rank(b)),
{
    match (a, b) {
        (None, None) => false,
        (None, Some(_)) => true,
        (Some(_), None) => false,
        (Some(x), Some(y)) => x < y,
    }
}

/// Whether two nonces are the same.
fn same_nonce(a: Option<u128>, b: Option<u128>) -> (same: bool)
    ensures
        same == (a == b),
{
    match (a, b) {
        (None, None) => true,
        (Some(x), Some(y)) => x == y,
        _ => false,
    }
}

/// Where `nonce` stands, or would stand, among requests in ascending order
/// of their nonces, and whether a request stands there under it.
fn nonce_place(requests: &Vec<RequestsJSON>, nonce: Option<u128>) -> (place: (usize, bool))
    requires
        nonces_ascending(requests@),
    ensures
        place.0 <= requests@.len(),
        forall|i: int| 0 <= i < place.0 ==> rank((#[trigger] requests@[i]).nonce) < rank(nonce),
        forall|i: int|
            place.0 <= i < requests@.len() ==> rank(nonce) <= rank((#[trigger] requests@[i]).nonce),
        place.1 == has_nonce(requests@, nonce),
        place.1 ==> place.0 < requests@.len() && requests@[place.0 as int].nonce == nonce,
        !place.1 ==> forall|i: int|
            place.0 <= i < requests@.len() ==> rank(nonce) < rank((#[trigger] requests@[i]).nonce),
{
    let mut i: usize = 0;
    while i < requests.len() && nonce_before(requests[i].nonce, nonce)
        invariant
            i <= requests@.len(),
            forall|j: int| 0 <= j < i ==> rank((#[trigger] requests@[j]).nonce) < rank(nonce),
        decreases requests@.len() - i,
    {
        i += 1;
    }
    let found = i < requests.len() && same_nonce(requests[i].nonce, nonce);
    proof {
        assert forall|j: int| i <= j < requests@.len() implies rank(nonce) <= rank(
            (#[trigger] requests@[j]).nonce,
        ) by {
            if j > i {
                assert(rank(requests@[i as int].nonce) < rank(requests@[j].nonce));
            }
        }
        if has_nonce(requests@, nonce) {
            let j = choose|j: int| 0 <= j < requests@.len() && (#[trigger] requests@[j]).nonce == nonce;
            if j > i {
                assert(rank(requests@[i as int].nonce) < rank(requests@[j].nonce));
            }
        }
    }
    (i, found)
}

/// Where `account` stands, or would stand, among accounts in ascending
/// order, and whether it stands there.
fn account_place(all: &Vec<AccountRequests>, account: &String) -> (place: (usize, bool))
    requires
        ascending(keys_of(all@)),
    ensures
        place.0 <= all@.len(),
        forall|i: int| 0 <= i < place.0 ==> text_less(#[trigger] keys_of(all@)[i], account@),
        place.1 == keys_of(all@).contains(account@),
        place.1 ==> place.0 < all@.len() && keys_of(all@)[place.0 as int] == account@ && position(
            keys_of(all@),
            account@,
        ) == place.0,
        !place.1 ==> forall|i: int|
            place.0 <= i < all@.len() ==> text_less(account@, #[trigger] keys_of(all@)[i]),
{
    let ghost keys = keys_of(all@);
    let mut i: usize = 0;
    while i < all.len() && less(&all[i].account, account)
        invariant
            i <= all@.len(),
            keys == keys_of(all@),
            forall|j: int| 0 <= j < i ==> text_less(#[trigger] keys[j], account@),
        decreases all@.len() - i,
    {
        i += 1;
    }
    let found = i < all.len() && all[i].account == *account;
    proof {
        lemma_ascending_distinct(keys);
        if found {
            lemma_position_unique(keys, i as int);
        } else {
            assert forall|j: int| i <= j < all@.len() implies text_less(account@, #[trigger] keys[j]) by {
                lemma_text_less_total(account@, keys[i as int]);
                if j > i {
                    assert(text_less(keys[i as int], keys[j]));
                    lemma_text_less_transitive(account@, keys[i as int], keys[j]);
                }
            }
            if keys.contains(account@) {
                let j = choose|j: int| 0 <= j < keys.len() && keys[j] == account@;
                if j < i {
                    lemma_text_less_irreflexive(keys[j], account@);
                } else {
                    lemma_text_less_irreflexive(account@, keys[j]);
                }
            }
        }
    }
    (i, found)
}

/// `after` holds the requests that `before` held, and `request` under
/// `nonce` in place of what was held under it, in ascending order.
pub open spec fn stored_in(
    before: Seq<RequestsJSON>,
    after: Seq<RequestsJSON>,
    nonce: Option<u128>,
    request: OracleRequest,
) -> bool {
    &&& nonces_ascending(after)
    &&& forall|n: Option<u128>| #[trigger]
        request_at(after, n) == if n == nonce {
            Some(request)
        } else {
            request_at(before, n)
        }
}

/// `after` holds the requests that `before` held but the one under `nonce`,
/// in ascending order.
pub open spec fn removed_from(
    before: Seq<RequestsJSON>,
    after: Seq<RequestsJSON>,
    nonce: Option<u128>,
) -> bool {
    &&& nonces_ascending(after)
    &&& forall|n: Option<u128>| #[trigger]
        request_at(after, n) == if n == nonce {
            None
        } else {
            request_at(before, n)
        }
}

/// Keeps `request` under `nonce`, in place of what was kept under it.
fn put_request(requests: &mut Vec<RequestsJSON>, nonce: Option<u128>, request: OracleRequest)
    requires
        nonces_ascending(old(requests)@),
    ensures
        stored_in(old(requests)@, final(requests)@, nonce, request),
{
    let ghost before = requests@;
    let (q, found) = nonce_place(requests, nonce);
    if found {
        requests[q].request = request;
    } else {
        requests.insert(q, RequestsJSON { nonce, request });
    }
    proof {
        let after = requests@;
        assert forall|i: int, j: int| 0 <= i < j < after.len() implies rank(
            (#[trigger] after[i]).nonce,
        ) < rank((#[trigger] after[j]).nonce) by {
            if found {
                assert(after[i].nonce == before[i].nonce && after[j].nonce == before[j].nonce);
            } else {
                let i0 = if i < q { i } else { i - 1 };
                let j0 = if j < q { j } else { j - 1 };
                if i != q {
                    assert(after[i].nonce == before[i0].nonce);
                }
                if j != q {
                    assert(after[j].nonce == before[j0].nonce);
                }
            }
        }
        assert(after[q as int].nonce == nonce && after[q as int].request == request);
        assert forall|n: Option<u128>| #[trigger]
            request_at(after, n) == if n == nonce {
                Some(request)
            } else {
                request_at(before, n)
            } by {
            if n == nonce {
                lemma_request_at(after, q as int);
            } else {
                if has_nonce(before, n) {
                    let i = choose|i: int| 0 <= i < before.len() && (#[trigger] before[i]).nonce == n;
                    lemma_request_at(before, i);
                    let i1 = if found || i < q { i } else { i + 1 };
                    assert(after[i1] == before[i]);
                    lemma_request_at(after, i1);
                } else if has_nonce(after, n) {
                    let i = choose|i: int| 0 <= i < after.len() && (#[trigger] after[i]).nonce == n;
                    let i0 = if found || i < q { i } else { i - 1 };
                    assert(after[i].nonce == before[i0].nonce);
                }
            }
        }
    }
}

/// Drops the request kept under `nonce`, if there is one.
fn take_request(requests: &mut Vec<RequestsJSON>, nonce: Option<u128>)
    requires
        nonces_ascending(old(requests)@),
    ensures
        removed_from(old(requests)@, final(requests)@, nonce),
{
    let ghost before = requests@;
    let (q, found) = nonce_place(requests, nonce);
    if found {
        requests.remove(q);
    }
    proof {
        let after = requests@;
        assert forall|i: int| 0 <= i < after.len() implies #[trigger] after[i] == before[if found && i
            >= q {
            i + 1
        } else {
            i
        }] by {}
        assert forall|i: int, j: int| 0 <= i < j < after.len() implies rank(
            (#[trigger] after[i]).nonce,
        ) < rank((#[trigger] after[j]).nonce) by {
            let i0 = if found && i >= q { i + 1 } else { i };
            let j0 = if found && j >= q { j + 1 } else { j };
            assert(after[i] == before[i0] && after[j] == before[j0]);
        }
        assert forall|n: Option<u128>| #[trigger]
            request_at(after, n) == if n == nonce {
                None
            } else {
                request_at(before, n)
            } by {
            if has_nonce(after, n) {
                let i = choose|i: int| 0 <= i < after.len() && (#[trigger] after[i]).nonce == n;
                let i0 = if found && i >= q { i + 1 } else { i };
                assert(after[i] == before[i0]);
                lemma_request_at(after, i);
                lemma_request_at(before, i0);
                if n == nonce {
                    if found {
                        if i0 < q {
                            assert(rank(before[i0].nonce) < rank(before[q as int].nonce));
                        } else {
                            assert(rank(before[q as int].nonce) < rank(before[i0].nonce));
                        }
                    }
                }
            } else if n != nonce && has_nonce(before, n) {
                let i = choose|i: int| 0 <= i < before.len() && (#[trigger] before[i]).nonce == n;
                let i1 = if found && i > q { i - 1 } else { i };
                assert(after[i1] == before[i]);
            }
        }
    }
}

/// Requests of which each has a lower nonce than the next stand in
/// ascending order of their nonces.
proof fn lemma_nonce_reaches(requests: Seq<RequestsJSON>, i: int, j: int)
    requires
        forall|k: int|
            0 <= k < requests.len() - 1 ==> rank((#[trigger] requests[k]).nonce) < rank(
                requests[k + 1].nonce,
            ),
        0 <= i < j < requests.len(),
    ensures
        rank(requests[i].nonce) < rank(requests[j].nonce),
    decreases j - i,
{
    if j > i + 1 {
        lemma_nonce_reaches(requests, i, j - 1);
        assert(rank(requests[j - 1].nonce) < rank(requests[j - 1 + 1].nonce));
    } else {
        assert(rank(requests[i].nonce) < rank(requests[i + 1].nonce));
    }
}

/// Whether the requests stand in ascending order of their nonces.
fn in_nonce_order(requests: &Vec<RequestsJSON>) -> (ok: bool)
    ensures
        ok == nonces_ascending(requests@),
{
    let mut i: usize = 1;
    while i < requests.len()
        invariant
            1 <= i,
            forall|k: int|
                0 <= k < i - 1 && k < requests@.len() - 1 ==> rank((#[trigger] requests@[k]).nonce)
                    < rank(requests@[k + 1].nonce),
        decreases requests.len() - i,
    {
        if !nonce_before(requests[i - 1].nonce, requests[i].nonce) {
            assert(!(rank(requests@[i - 1].nonce) < rank(requests@[i as int].nonce)));
            return false;
        }
        i += 1;
    }
    proof {
        assert forall|a: int, b: int| 0 <= a < b < requests@.len() implies rank(
            (#[trigger] requests@[a]).nonce,
        ) < rank((#[trigger] requests@[b]).nonce) by {
            lemma_nonce_reaches(requests@, a, b);
        }
    }
    true
}

/// What stands in the way of a request, if anything does.
pub open spec fn request_refusal(
    requests: Seq<AccountRequests>,
    nonces: Seq<AccountNonce>,
    predecessor: Seq<char>,
    current: Seq<char>,
    now: u64,
    callback_address: Seq<char>,
    nonce: Option<u128>,
) -> Option<OracleError> {
    if callback_address == current {
        Some(OracleError::CallbackIsOracle)
    } else if nonce is Some && (requests_of(requests, predecessor) matches Some(open) && has_nonce(
        open,
        nonce,
    )) {
        Some(OracleError::NonceExists)
    } else if nonce is Some && (last_nonce(nonces, predecessor) matches Some(last) && rank(nonce)
        <= match last {
        Some(used) => used as int,
        None => u128::MAX as int,
    }) {
        Some(OracleError::NonceUsed)
    } else if now + EXPIRY_TIME > u64::MAX {
        Some(OracleError::Overflow)
    } else {
        None
    }
}

/// The method the use cases ask the oracle to call with a verdict on a
/// campaign.
pub const CAMPAIGN_CALLBACK: &'static str = "campaign_verification_callback";

/// The method the use cases ask the oracle to call when a pass is due for
/// renewal.
pub const RENEWAL_CALLBACK: &'static str = "renew_subscription_pass";

/// The smaller of a limit and a length.
pub open spec fn at_most(limit: u64, len: nat) -> int {
    if limit < len {
        limit as int
    } else {
        len as int
    }
}

/// The least of three numbers.
pub open spec fn least(a: int, b: int, c: int) -> int {
    if a <= b && a <= c {
        a
    } else if b <= c {
        b
    } else {
        c
    }
}

/// The first `max_requests` of the requests that are to be answered by
/// calling `method`, in their order.
pub open spec fn first_calling(requests: Seq<RequestsJSON>, method: Seq<char>, max_requests: u64) -> Seq<
    RequestsJSON,
> {
    let calling = requests.filter(|r: RequestsJSON| r.request.callback_method@ == method);
    calling.take(at_most(max_requests, calling.len()))
}

/// What stands in the way of delivering an answer, if anything does.
pub open spec fn fulfillment_refusal(
    oracle: Oracle,
    signer: Seq<char>,
    current: Seq<char>,
    prepaid_gas: u64,
    used_gas: u64,
    account: Seq<char>,
    nonce: u128,
) -> Option<OracleError> {
    if !(oracle.authorizes(signer) || signer == current) {
        Some(OracleError::NotAuthorized)
    } else if prepaid_gas - used_gas <= MINIMUM_CONSUMER_GAS_LIMIT {
        Some(OracleError::InsufficientGas)
    } else {
        match requests_of(oracle.requests@, account) {
            None => Some(OracleError::AccountNotFound),
            Some(open) => if has_nonce(open, Some(nonce)) {
                None
            } else {
                Some(OracleError::RequestNotFound)
            },
        }
    }
}

/// The oracle: the nonce each account used last, the open requests of each
/// account, and the nodes that may answer them.
pub struct Oracle {
    /// The account that owns the oracle.
    pub owner: String,
    /// For each account that has made a request, the nonce it used last.
    pub nonces: Vec<AccountNonce>,
    /// The open requests, by account in ascending order.
    pub requests: Vec<AccountRequests>,
    /// The nodes that may answer requests, each once.
    pub authorized_nodes: Vec<String>,
}

impl Oracle {
    /// The oracle's invariant: accounts stand in ascending order and the
    /// requests of each in ascending order of their nonces; each account has
    /// one last nonce, and each node is authorised once.
    pub open spec fn wf(&self) -> bool {
        &&& ascending(keys_of(self.requests@))
        &&& forall|i: int|
            0 <= i < self.requests@.len() ==> nonces_ascending(
                (#[trigger] self.requests@[i]).requests@,
            )
        &&& distinct(keys_of(self.nonces@))
        &&& distinct(text_views(self.authorized_nodes@))
    }

    /// Whether the node may answer requests.
    pub open spec fn authorizes(&self, node: Seq<char>) -> bool {
        text_views(self.authorized_nodes@).contains(node)
    }

    /// An oracle owned by `owner_id`, without requests and without nodes.
    /// An owner whose identifier is not valid yields `InvalidAccountId`.
    pub fn new(owner_id: String) -> (oracle: Result<Oracle, OracleError>)
        ensures
            match oracle {
                Ok(o) => valid_account_id(owner_id@) && o.wf() && o.owner == owner_id && o.nonces@
                    == Seq::<AccountNonce>::empty() && o.requests@ == Seq::<
                    AccountRequests,
                >::empty() && o.authorized_nodes@ == Seq::<String>::empty(),
                Err(e) => !valid_account_id(owner_id@) && e == OracleError::InvalidAccountId,
            },
    {
        if !is_valid_account_id(&owner_id) {
            return Err(OracleError::InvalidAccountId);
        }
        let oracle = Oracle {
            owner: owner_id,
            nonces: Vec::new(),
            requests: Vec::new(),
            authorized_nodes: Vec::new(),
        };
        assert(keys_of(oracle.requests@) =~= Seq::<Seq<char>>::empty());
        assert(keys_of(oracle.nonces@) =~= Seq::<Seq<char>>::empty());
        assert(text_views(oracle.authorized_nodes@) =~= Seq::<Seq<char>>::empty());
        Ok(oracle)
    }

    /// Whether the oracle's invariant holds.
    pub fn is_valid(&self) -> (valid: bool)
        ensures
            valid == self.wf(),
    {
        if !keys_ascending(&self.requests) || !keys_distinct(&self.nonces) || !texts_distinct(
            &self.authorized_nodes,
        ) {
            return false;
        }
        let mut i: usize = 0;
        while i < self.requests.len()
            invariant
                i <= self.requests.len(),
                forall|k: int| 0 <= k < i ==> nonces_ascending((#[trigger] self.requests@[k]).requests@),
            decreases self.requests.len() - i,
        {
            if !in_nonce_order(&self.requests[i].requests) {
                return false;
            }
            i += 1;
        }
        true
    }

    /// Accepts a call that the oracle's own account signed, and refuses
    /// every other with `NotOwner`.
    pub fn _only_owner(signer_id: &String, current_id: &String) -> (accepted: Result<
        (),
        OracleError,
    >)
        ensures
            accepted == if signer_id@ == current_id@ {
                Ok::<(), OracleError>(())
            } else {
                Err::<(), OracleError>(OracleError::NotOwner)
            },
    {
        if *signer_id == *current_id {
            Ok(())
        } else {
            Err(OracleError::NotOwner)
        }
    }

    /// Accepts a call that the oracle makes to itself, and refuses every
    /// other with `NotOwnerPredecessor`.
    pub fn _only_owner_predecessor(predecessor_id: &String, current_id: &String) -> (accepted:
        Result<(), OracleError>)
        ensures
            accepted == if predecessor_id@ == current_id@ {
                Ok::<(), OracleError>(())
            } else {
                Err::<(), OracleError>(OracleError::NotOwnerPredecessor)
            },
    {
        if *predecessor_id == *current_id {
            Ok(())
        } else {
            Err(OracleError::NotOwnerPredecessor)
        }
    }

    /// Accepts a call signed by an authorised node or by the oracle's own
    /// account, and refuses every other with `NotAuthorized`.
    pub fn _only_authorized_node(&self, signer_id: &String, current_id: &String) -> (accepted:
        Result<(), OracleError>)
        ensures
            accepted == if self.authorizes(signer_id@) || signer_id@ == current_id@ {
                Ok::<(), OracleError>(())
            } else {
                Err::<(), OracleError>(OracleError::NotAuthorized)
            },
    {
        if self.is_authorized(signer_id) || *signer_id == *current_id {
            Ok(())
        } else {
            Err(OracleError::NotAuthorized)
        }
    }

    /// Accepts an address for the answer that is not the oracle's own, and
    /// refuses the oracle's own with `CallbackIsOracle`.
    pub fn _check_callback_address(callback_address: &String, current_id: &String) -> (accepted:
        Result<(), OracleError>)
        ensures
            accepted == if callback_address@ != current_id@ {
                Ok::<(), OracleError>(())
            } else {
                Err::<(), OracleError>(OracleError::CallbackIsOracle)
            },
    {
        if *callback_address != *current_id {
            Ok(())
        } else {
            Err(OracleError::CallbackIsOracle)
        }
    }

    /// The place of `node` among the authorised nodes.
    fn node_place(&self, node: &String) -> (place: Option<usize>)
        ensures
            match place {
                Some(i) => i < self.authorized_nodes@.len() && text_views(self.authorized_nodes@)[i as int]
                    == node@ && self.authorizes(node@),
                None => !self.authorizes(node@),
            },
    {
        let mut i: usize = 0;
        while i < self.authorized_nodes.len()
            invariant
                i <= self.authorized_nodes.len(),
                forall|j: int| 0 <= j < i ==> #[trigger] text_views(self.authorized_nodes@)[j] != node@,
            decreases self.authorized_nodes.len() - i,
        {
            if self.authorized_nodes[i] == *node {
                assert(text_views(self.authorized_nodes@)[i as int] == node@);
                return Some(i);
            }
            i += 1;
        }
        None
    }

    /// Whether the node may answer requests.
    pub fn is_authorized(&self, node: &String) -> (authorized: bool)
        ensures
            authorized == self.authorizes(node@),
    {
        self.node_place(node).is_some()
    }

    /// Authorises a node to answer requests. Only the oracle's own account
    /// may do so (`NotOwner`), and the node's identifier must be valid
    /// (`InvalidAccountId`); else nothing changes. A node that is authorised
    /// already stays so.
    pub fn add_authorization(&mut self, signer_id: &String, current_id: &String, node: String) -> (done:
        Result<(), OracleError>)
        requires
            old(self).wf(),
        ensures
            final(self).wf(),
            final(self).owner == old(self).owner,
            final(self).nonces == old(self).nonces,
            final(self).requests == old(self).requests,
            if signer_id@ != current_id@ {
                done == Err::<(), OracleError>(OracleError::NotOwner) && final(self).authorized_nodes
                    == old(self).authorized_nodes
            } else if !valid_account_id(node@) {
                done == Err::<(), OracleError>(OracleError::InvalidAccountId) && final(self).authorized_nodes == old(self).authorized_nodes
            } else {
                done == Ok::<(), OracleError>(()) && text_views(final(self).authorized_nodes@) == if old(self).authorizes(node@) {
                    text_views(old(self).authorized_nodes@)
                } else {
                    text_views(old(self).authorized_nodes@).push(node@)
                }
            },
    {
        match Self::_only_owner(signer_id, current_id) {
            Err(e) => {
                return Err(e);
            },
            Ok(()) => {},
        }
        if !is_valid_account_id(&node) {
            return Err(OracleError::InvalidAccountId);
        }
        if self.node_place(&node).is_none() {
            proof {
                lemma_push_distinct(text_views(self.authorized_nodes@), node@);
            }
            self.authorized_nodes.push(node);
            assert(text_views(self.authorized_nodes@) =~= text_views(old(self).authorized_nodes@).push(node@));
        }
        Ok(())
    }

    /// Withdraws a node's authorisation; the last node takes its place.
    /// Only the oracle's own account may do so (`NotOwner`). A node that is
    /// not authorised stays so.
    pub fn remove_authorization(&mut self, signer_id: &String, current_id: &String, node: String) -> (done:
        Result<(), OracleError>)
        requires
            old(self).wf(),
        ensures
            final(self).wf(),
            final(self).owner == old(self).owner,
            final(self).nonces == old(self).nonces,
            final(self).requests == old(self).requests,
            if signer_id@ != current_id@ {
                done == Err::<(), OracleError>(OracleError::NotOwner) && final(self).authorized_nodes
                    == old(self).authorized_nodes
            } else {
                done == Ok::<(), OracleError>(()) && !final(self).authorizes(node@) && forall|
                    other: Seq<char>,
                |
                    other != node@ ==> (#[trigger] final(self).authorizes(other) == old(self).authorizes(other))
            },
    {
        match Self::_only_owner(signer_id, current_id) {
            Err(e) => {
                return Err(e);
            },
            Ok(()) => {},
        }
        match self.node_place(&node) {
            None => {},
            Some(index) => {
                let ghost before = text_views(self.authorized_nodes@);
                proof {
                    lemma_position_unique(before, index as int);
                }
                self.authorized_nodes.swap_remove(index);
                proof {
                    let after = text_views(self.authorized_nodes@);
                    let last = before.len() - 1;
                    assert(after =~= before.update(index as int, before[last]).drop_last());
                    assert forall|i: int| 0 <= i < after.len() implies #[trigger] after[i] == before[if i
                        == index {
                        last
                    } else {
                        i
                    }] by {}
                    assert forall|i: int, j: int|
                        0 <= i < after.len() && 0 <= j < after.len() && i != j implies #[trigger] after[i]
                        != #[trigger] after[j] by {
                        let i0 = if i == index { last } else { i };
                        let j0 = if j == index { last } else { j };
                        assert(after[i] == before[i0] && after[j] == before[j0]);
                    }
                    assert forall|i: int| 0 <= i < after.len() implies #[trigger] after[i] != node@ by {
                        let i0 = if i == index { last } else { i };
                        assert(after[i] == before[i0]);
                    }
                    assert forall|other: Seq<char>| other != node@ implies (#[trigger] after.contains(
                        other,
                    ) == before.contains(other)) by {
                        if after.contains(other) {
                            let i = choose|i: int| 0 <= i < after.len() && after[i] == other;
                            let i0 = if i == index { last } else { i };
                            assert(before[i0] == other);
                        }
                        if before.contains(other) {
                            let i = choose|i: int| 0 <= i < before.len() && before[i] == other;
                            if i == last {
                                assert(after[index as int] == other);
                            } else {
                                assert(after[i] == other);
                            }
                        }
                    }
                }
            },
        }
        Ok(())
    }
    /// Whether `other` has the same owner and the same authorised nodes.
    pub open spec fn same_staff(&self, other: &Oracle) -> bool {
        self.owner == other.owner && self.authorized_nodes == other.authorized_nodes
    }

    /// Records `nonce` as the nonce that `account` used last.
    fn set_last_nonce(&mut self, account: &String, nonce: Option<u128>)
        requires
            distinct(keys_of(old(self).nonces@)),
        ensures
            distinct(keys_of(final(self).nonces@)),
            final(self).same_staff(old(self)),
            final(self).requests == old(self).requests,
            forall|a: Seq<char>| #[trigger]
                last_nonce(final(self).nonces@, a) == if a == account@ {
                    Some(nonce)
                } else {
                    last_nonce(old(self).nonces@, a)
                },
    {
        let ghost before = self.nonces@;
        let ghost keys = keys_of(before);
        let found = find(&self.nonces, account);
        match found {
            Some(i) => {
                self.nonces[i].nonce = nonce;
                assert(keys_of(self.nonces@) =~= keys);
            },
            None => {
                proof {
                    lemma_push_distinct(keys, account@);
                }
                self.nonces.push(AccountNonce { account: account.clone(), nonce });
                assert(keys_of(self.nonces@) =~= keys.push(account@));
            },
        }
        proof {
            let after = self.nonces@;
            let k = match found {
                Some(i) => i as int,
                None => before.len() as int,
            };
            assert(keys_of(after)[k] == account@);
            lemma_position_unique(keys_of(after), k);
            assert forall|a: Seq<char>| #[trigger]
                last_nonce(after, a) == if a == account@ {
                    Some(nonce)
                } else {
                    last_nonce(before, a)
                } by {
                if a != account@ {
                    if keys.contains(a) {
                        let j = choose|j: int| 0 <= j < keys.len() && keys[j] == a;
                        lemma_position_unique(keys, j);
                        assert(keys_of(after)[j] == a);
                        lemma_position_unique(keys_of(after), j);
                    } else if keys_of(after).contains(a) {
                        let j = choose|j: int| 0 <= j < after.len() && keys_of(after)[j] == a;
                        assert(keys[j] == a);
                    }
                }
            }
        }
    }

    /// The place of the entry of `account` among the requests; an account
    /// without an entry gets an empty one.
    fn entry_for(&mut self, account: &String) -> (place: usize)
        requires
            old(self).wf(),
        ensures
            final(self).wf(),
            final(self).same_staff(old(self)),
            final(self).nonces == old(self).nonces,
            place < final(self).requests@.len(),
            final(self).requests@[place as int].account@ == account@,
            final(self).requests@[place as int].requests@ == match requests_of(
                old(self).requests@,
                account@,
            ) {
                Some(kept) => kept,
                None => Seq::<RequestsJSON>::empty(),
            },
            forall|a: Seq<char>|
                a != account@ ==> #[trigger] requests_of(final(self).requests@, a) == requests_of(
                    old(self).requests@,
                    a,
                ),
    {
        let ghost before = self.requests@;
        let ghost keys = keys_of(before);
        let (p, found) = account_place(&self.requests, account);
        if !found {
            self.requests.insert(
                p,
                AccountRequests { account: account.clone(), requests: Vec::new() },
            );
            proof {
                let after = self.requests@;
                let next = keys_of(after);
                assert(next =~= keys.insert(p as int, account@));
                assert forall|i: int, j: int| 0 <= i < j < next.len() implies text_less(
                    #[trigger] next[i],
                    #[trigger] next[j],
                ) by {
                    let i0 = if i < p { i } else { i - 1 };
                    let j0 = if j < p { j } else { j - 1 };
                    if i != p && j != p {
                        assert(next[i] == keys[i0] && next[j] == keys[j0]);
                    } else if i == p {
                        assert(next[j] == keys[j0]);
                    } else {
                        assert(next[i] == keys[i0]);
                    }
                }
                assert forall|i: int| 0 <= i < after.len() implies nonces_ascending(
                    (#[trigger] after[i]).requests@,
                ) by {
                    if i != p {
                        let i0 = if i < p { i } else { i - 1 };
                        assert(after[i] == before[i0]);
                    }
                }
                lemma_ascending_distinct(keys);
                lemma_ascending_distinct(next);
                assert forall|a: Seq<char>| a != account@ implies #[trigger] requests_of(after, a)
                    == requests_of(before, a) by {
                    if keys.contains(a) {
                        let j = choose|j: int| 0 <= j < keys.len() && keys[j] == a;
                        lemma_position_unique(keys, j);
                        let j1 = if j < p { j } else { j + 1 };
                        assert(after[j1] == before[j]);
                        assert(next[j1] == a);
                        lemma_position_unique(next, j1);
                    } else if next.contains(a) {
                        let j = choose|j: int| 0 <= j < next.len() && next[j] == a;
                        let j0 = if j < p { j } else { j - 1 };
                        assert(after[j] == before[j0]);
                        assert(keys[j0] == a);
                    }
                }
            }
        }
        p
    }

    /// Keeps a request of `sender` under `nonce`, in place of a request
    /// that it had under the nonce, and records the nonce as the one the
    /// sender used last. The request stays open for the expiry time from
    /// the moment `now`; a moment beyond `u64::MAX` yields `Overflow` and
    /// changes nothing.
    pub fn store_request(
        &mut self,
        now: u64,
        sender: String,
        callback_address: String,
        callback_method: String,
        nonce: Option<u128>,
        data: String,
    ) -> (done: Result<(), OracleError>)
        requires
            old(self).wf(),
        ensures
            final(self).wf(),
            final(self).same_staff(old(self)),
            match done {
                Err(e) => e == OracleError::Overflow && now + EXPIRY_TIME > u64::MAX && final(self).nonces == old(self).nonces && final(self).requests == old(self).requests,
                Ok(()) => {
                    &&& now + EXPIRY_TIME <= u64::MAX
                    &&& requests_of(final(self).requests@, sender@) matches Some(kept) && stored_in(
                        match requests_of(old(self).requests@, sender@) {
                            Some(had) => had,
                            None => Seq::<RequestsJSON>::empty(),
                        },
                        kept,
                        nonce,
                        OracleRequest {
                            callback_address,
                            callback_method,
                            data,
                            expiration: (now + EXPIRY_TIME) as u64,
                        },
                    )
                    &&& forall|a: Seq<char>|
                        a != sender@ ==> #[trigger] requests_of(final(self).requests@, a)
                            == requests_of(old(self).requests@, a)
                    &&& forall|a: Seq<char>| #[trigger]
                        last_nonce(final(self).nonces@, a) == if a == sender@ {
                            Some(nonce)
                        } else {
                            last_nonce(old(self).nonces@, a)
                        }
                },
            },
    {
        let expiration = match now.checked_add(EXPIRY_TIME) {
            Some(moment) => moment,
            None => {
                return Err(OracleError::Overflow);
            },
        };
        let oracle_request = OracleRequest { callback_address, callback_method, data, expiration };
        let p = self.entry_for(&sender);
        let ghost middle = self.requests@;
        put_request(&mut self.requests[p].requests, nonce, oracle_request);
        proof {
            self.lemma_one_entry_changed(middle, p as int);
        }
        self.set_last_nonce(&sender, nonce);
        Ok(())
    }

    /// Where one entry got other requests, in ascending order of their
    /// nonces, the invariant holds as it did, and the requests of every
    /// other account are what they were.
    proof fn lemma_one_entry_changed(&self, before: Seq<AccountRequests>, p: int)
        requires
            ascending(keys_of(before)),
            forall|i: int| 0 <= i < before.len() ==> nonces_ascending((#[trigger] before[i]).requests@),
            0 <= p < before.len(),
            self.requests@.len() == before.len(),
            forall|i: int| 0 <= i < before.len() && i != p ==> #[trigger] self.requests@[i] == before[i],
            self.requests@[p].account == before[p].account,
            nonces_ascending(self.requests@[p].requests@),
        ensures
            ascending(keys_of(self.requests@)),
            forall|i: int|
                0 <= i < self.requests@.len() ==> nonces_ascending(
                    (#[trigger] self.requests@[i]).requests@,
                ),
            requests_of(self.requests@, before[p].account@) == Some(self.requests@[p].requests@),
            forall|a: Seq<char>|
                a != before[p].account@ ==> #[trigger] requests_of(self.requests@, a) == requests_of(
                    before,
                    a,
                ),
    {
        let after = self.requests@;
        assert(keys_of(after) =~= keys_of(before)) by {
            assert forall|i: int| 0 <= i < before.len() implies keys_of(after)[i] == keys_of(
                before,
            )[i] by {
                if i != p {
                    assert(after[i] == before[i]);
                }
            }
        }
        assert forall|i: int| 0 <= i < after.len() implies nonces_ascending(
            (#[trigger] after[i]).requests@,
        ) by {
            if i != p {
                assert(after[i] == before[i]);
            }
        }
        lemma_requests_of(after, p);
        lemma_ascending_distinct(keys_of(before));
        assert forall|a: Seq<char>| a != before[p].account@ implies #[trigger] requests_of(after, a)
            == requests_of(before, a) by {
            if keys_of(before).contains(a) {
                let j = position(keys_of(before), a);
                assert(after[j] == before[j]);
            }
        }
    }

    /// Takes in a request from the caller, `predecessor_id`, to be answered
    /// at `callback_address` by calling `callback_method`. The answer must
    /// not go to the oracle itself (`CallbackIsOracle`); the caller must have
    /// no open request under the nonce (`NonceExists`); and a nonce must be
    /// above the last one the caller used, where a caller that last used
    /// none may use none again (`NonceUsed`). Then the request is kept as
    /// `store_request` keeps it. A request that is refused changes nothing.
    pub fn request(
        &mut self,
        predecessor_id: String,
        current_id: &String,
        now: u64,
        callback_address: String,
        callback_method: String,
        nonce: Option<u128>,
        data: String,
    ) -> (done: Result<(), OracleError>)
        requires
            old(self).wf(),
        ensures
            final(self).wf(),
            final(self).same_staff(old(self)),
            match request_refusal(
                old(self).requests@,
                old(self).nonces@,
                predecessor_id@,
                current_id@,
                now,
                callback_address@,
                nonce,
            ) {
                Some(e) => done == Err::<(), OracleError>(e) && final(self).nonces == old(self).nonces && final(self).requests == old(self).requests,
                None => {
                    &&& done == Ok::<(), OracleError>(())
                    &&& requests_of(final(self).requests@, predecessor_id@) matches Some(kept)
                        && stored_in(
                        match requests_of(old(self).requests@, predecessor_id@) {
                            Some(had) => had,
                            None => Seq::<RequestsJSON>::empty(),
                        },
                        kept,
                        nonce,
                        OracleRequest {
                            callback_address,
                            callback_method,
                            data,
                            expiration: (now + EXPIRY_TIME) as u64,
                        },
                    )
                    &&& forall|a: Seq<char>|
                        a != predecessor_id@ ==> #[trigger] requests_of(final(self).requests@, a)
                            == requests_of(old(self).requests@, a)
                    &&& forall|a: Seq<char>| #[trigger]
                        last_nonce(final(self).nonces@, a) == if a == predecessor_id@ {
                            Some(nonce)
                        } else {
                            last_nonce(old(self).nonces@, a)
                        }
                },
            },
    {
        match Self::_check_callback_address(&callback_address, current_id) {
            Err(e) => {
                return Err(e);
            },
            Ok(()) => {},
        }
        if nonce.is_some() {
            let (p, found) = account_place(&self.requests, &predecessor_id);
            if found {
                assert(requests_of(self.requests@, predecessor_id@) == Some(
                    self.requests@[p as int].requests@,
                ));
                let (_, exists) = nonce_place(&self.requests[p].requests, nonce);
                if exists {
                    return Err(OracleError::NonceExists);
                }
            } else {
                assert(requests_of(self.requests@, predecessor_id@) is None);
            }
        }
        let last_nonce_option = self.get_nonce(&predecessor_id);
        match (last_nonce_option, nonce) {
            (Some(last), Some(n)) => {
                let last_nonce_u128 = match last {
                    Some(used) => used,
                    None => u128::MAX,
                };
                if !(last_nonce_u128 < n) {
                    return Err(OracleError::NonceUsed);
                }
            },
            _ => {},
        }
        assert(request_refusal(
            self.requests@,
            self.nonces@,
            predecessor_id@,
            current_id@,
            now,
            callback_address@,
            nonce,
        ) == if now + EXPIRY_TIME > u64::MAX {
            Some(OracleError::Overflow)
        } else {
            None
        });
        let done = self.store_request(
            now,
            predecessor_id,
            callback_address,
            callback_method,
            nonce,
            data,
        );
        match done {
            Ok(()) => Ok(()),
            Err(e) => Err(e),
        }
    }

    /// The nonce that `account` used last: `None` for an account that has
    /// made no request, `Some(None)` for one that last used no nonce.
    pub fn get_nonce(&self, account: &String) -> (nonce: Option<Option<u128>>)
        requires
            self.wf(),
        ensures
            nonce == last_nonce(self.nonces@, account@),
    {
        match find(&self.nonces, account) {
            None => None,
            Some(i) => {
                proof {
                    lemma_position_unique(keys_of(self.nonces@), i as int);
                }
                Some(self.nonces[i].nonce)
            },
        }
    }

    /// The nonce each account used last, in the order in which the accounts
    /// made their first request.
    pub fn get_nonces(&self) -> (nonces: Vec<AccountNonce>)
        ensures
            nonces@.len() == self.nonces@.len(),
            forall|i: int|
                0 <= i < nonces@.len() ==> (#[trigger] nonces@[i]).account@
                    == self.nonces@[i].account@ && nonces@[i].nonce == self.nonces@[i].nonce,
    {
        let mut result: Vec<AccountNonce> = Vec::new();
        let mut i: usize = 0;
        while i < self.nonces.len()
            invariant
                i <= self.nonces.len(),
                result@.len() == i,
                forall|j: int|
                    0 <= j < i ==> (#[trigger] result@[j]).account@ == self.nonces@[j].account@
                        && result@[j].nonce == self.nonces@[j].nonce,
            decreases self.nonces.len() - i,
        {
            result.push(
                AccountNonce {
                    account: self.nonces[i].account.clone(),
                    nonce: self.nonces[i].nonce,
                },
            );
            i += 1;
        }
        result
    }

    /// Closes all requests. Only the oracle's own account may do so
    /// (`NotOwner`).
    pub fn reset(&mut self, signer_id: &String, current_id: &String) -> (done: Result<
        (),
        OracleError,
    >)
        requires
            old(self).wf(),
        ensures
            final(self).wf(),
            final(self).same_staff(old(self)),
            final(self).nonces == old(self).nonces,
            if signer_id@ == current_id@ {
                done == Ok::<(), OracleError>(()) && final(self).requests@ == Seq::<
                    AccountRequests,
                >::empty()
            } else {
                done == Err::<(), OracleError>(OracleError::NotOwner) && final(self).requests
                    == old(self).requests
            },
    {
        match Self::_only_owner(signer_id, current_id) {
            Err(e) => {
                return Err(e);
            },
            Ok(()) => {},
        }
        self.requests.clear();
        assert(keys_of(self.requests@) =~= Seq::<Seq<char>>::empty());
        Ok(())
    }
    /// Checks the delivery of the answer `data` to the request that
    /// `account` made under `nonce`, and says what the host is to do: call
    /// the method that the request named with the answer and the deposit
    /// attached, then tell the oracle to close the request.
    ///
    /// Only an authorised node or the oracle itself may deliver
    /// (`NotAuthorized`); more than the minimum compute allowance must be
    /// left for the consumer (`InsufficientGas`); the account must have
    /// requests (`AccountNotFound`) and one under the nonce
    /// (`RequestNotFound`).
    pub fn fulfill_request(
        &self,
        signer_id: &String,
        current_id: &String,
        prepaid_gas: u64,
        used_gas: u64,
        attached_deposit: u128,
        account: &String,
        nonce: u128,
        data: String,
    ) -> (delivery: Result<Fulfillment, OracleError>)
        requires
            self.wf(),
        ensures
            match fulfillment_refusal(
                *self,
                signer_id@,
                current_id@,
                prepaid_gas,
                used_gas,
                account@,
                nonce,
            ) {
                Some(e) => delivery matches Err(refusal) && refusal == e,
                None => {
                    &&& delivery matches Ok(f)
                    &&& requests_of(self.requests@, account@) matches Some(open) && request_at(
                        open,
                        Some(nonce),
                    ) matches Some(asked) && f.callback_address@ == asked.callback_address@
                        && f.callback_method@ == asked.callback_method@
                    &&& f.nonce == nonce
                    &&& f.answer == data
                    &&& f.deposit == attached_deposit
                    &&& f.callback_gas == 2 * SINGLE_CALL_GAS
                    &&& f.post_callback_gas == SINGLE_CALL_GAS / 2
                },
            },
    {
        match self._only_authorized_node(signer_id, current_id) {
            Err(e) => {
                return Err(e);
            },
            Ok(()) => {},
        }
        if prepaid_gas < used_gas || prepaid_gas - used_gas <= MINIMUM_CONSUMER_GAS_LIMIT {
            return Err(OracleError::InsufficientGas);
        }
        let (p, found) = account_place(&self.requests, account);
        if !found {
            return Err(OracleError::AccountNotFound);
        }
        let (q, exists) = nonce_place(&self.requests[p].requests, Some(nonce));
        if !exists {
            return Err(OracleError::RequestNotFound);
        }
        proof {
            lemma_request_at(self.requests@[p as int].requests@, q as int);
        }
        let request = &self.requests[p].requests[q].request;
        Ok(
            Fulfillment {
                callback_address: request.callback_address.clone(),
                callback_method: request.callback_method.clone(),
                nonce,
                answer: data,
                deposit: attached_deposit,
                callback_gas: 2 * SINGLE_CALL_GAS,
                post_callback_gas: SINGLE_CALL_GAS / 2,
            },
        )
    }

    /// Closes the request that `account` made under `nonce`, once its answer
    /// has been delivered: `delivered` says whether the delivery succeeded.
    /// Only the oracle may call this on itself (`NotOwnerPredecessor`); a
    /// delivery that failed yields `PromiseFailed`, an account without
    /// requests `AccountNotFound`; then nothing changes. An account that has
    /// no request under the nonce keeps what it has.
    pub fn fulfillment_post_callback(
        &mut self,
        predecessor_id: &String,
        current_id: &String,
        delivered: bool,
        account: String,
        nonce: u128,
    ) -> (done: Result<(), OracleError>)
        requires
            old(self).wf(),
        ensures
            final(self).wf(),
            final(self).same_staff(old(self)),
            final(self).nonces == old(self).nonces,
            if predecessor_id@ != current_id@ {
                done == Err::<(), OracleError>(OracleError::NotOwnerPredecessor) && final(self).requests == old(self).requests
            } else if !delivered {
                done == Err::<(), OracleError>(OracleError::PromiseFailed) && final(self).requests
                    == old(self).requests
            } else {
                match requests_of(old(self).requests@, account@) {
                    None => done == Err::<(), OracleError>(OracleError::AccountNotFound) && final(self).requests == old(self).requests,
                    Some(open) => {
                        &&& done == Ok::<(), OracleError>(())
                        &&& requests_of(final(self).requests@, account@) matches Some(left)
                            && removed_from(open, left, Some(nonce))
                        &&& forall|a: Seq<char>|
                            a != account@ ==> #[trigger] requests_of(final(self).requests@, a)
                                == requests_of(old(self).requests@, a)
                    },
                }
            },
    {
        match Self::_only_owner_predecessor(predecessor_id, current_id) {
            Err(e) => {
                return Err(e);
            },
            Ok(()) => {},
        }
        if !delivered {
            return Err(OracleError::PromiseFailed);
        }
        let (p, found) = account_place(&self.requests, &account);
        if !found {
            return Err(OracleError::AccountNotFound);
        }
        let ghost before = self.requests@;
        take_request(&mut self.requests[p].requests, Some(nonce));
        proof {
            self.lemma_one_entry_changed(before, p as int);
        }
        Ok(())
    }

    /// The open requests of `account`, in ascending order of their nonces:
    /// the first `max_requests`, and never more than there are accounts with
    /// an entry, and one. An account without an entry yields
    /// `AccountNotFound`.
    pub fn get_requests(&self, account: String, max_requests: u64) -> (requests: Result<
        Vec<RequestsJSON>,
        OracleError,
    >)
        requires
            self.wf(),
        ensures
            match requests_of(self.requests@, account@) {
                None => requests matches Err(e) && e == OracleError::AccountNotFound,
                Some(open) => requests matches Ok(listed) && listed@ == open.take(
                    least(max_requests as int, (self.requests@.len() + 1) as int, open.len() as int),
                ),
            },
    {
        let (p, found) = account_place(&self.requests, &account);
        if !found {
            return Err(OracleError::AccountNotFound);
        }
        let open = &self.requests[p].requests;
        let mut result: Vec<RequestsJSON> = Vec::new();
        let mut counter: usize = 0;
        while counter < open.len() && (counter as u64) < max_requests && counter
            <= self.requests.len()
            invariant
                counter <= open@.len(),
                counter <= max_requests,
                counter <= self.requests@.len() + 1,
                result@ == open@.take(counter as int),
            decreases open@.len() - counter,
        {
            result.push(open[counter].clone());
            counter += 1;
            assert(result@ =~= open@.take(counter as int));
        }
        Ok(result)
    }

    /// The open requests of the first `max_num_accounts` accounts, in
    /// ascending order of the accounts: of each, the first `max_requests`
    /// in ascending order of their nonces.
    pub fn get_all_requests(&self, max_num_accounts: u64, max_requests: u64) -> (listed: Vec<
        AccountRequests,
    >)
        ensures
            listed@.len() == at_most(max_num_accounts, self.requests@.len()),
            forall|i: int|
                0 <= i < listed@.len() ==> (#[trigger] listed@[i]).account@
                    == self.requests@[i].account@ && listed@[i].requests@
                    == self.requests@[i].requests@.take(
                    at_most(max_requests, self.requests@[i].requests@.len()),
                ),
    {
        let mut result: Vec<AccountRequests> = Vec::new();
        let mut account_counter: usize = 0;
        while account_counter < self.requests.len() && (account_counter as u64) < max_num_accounts
            invariant
                account_counter <= self.requests@.len(),
                account_counter <= max_num_accounts,
                result@.len() == account_counter,
                forall|i: int|
                    0 <= i < account_counter ==> (#[trigger] result@[i]).account@
                        == self.requests@[i].account@ && result@[i].requests@
                        == self.requests@[i].requests@.take(
                        at_most(max_requests, self.requests@[i].requests@.len()),
                    ),
            decreases self.requests@.len() - account_counter,
        {
            let open = &self.requests[account_counter].requests;
            let mut requests: Vec<RequestsJSON> = Vec::new();
            let mut request_counter: usize = 0;
            while request_counter < open.len() && (request_counter as u64) < max_requests
                invariant
                    request_counter <= open@.len(),
                    request_counter <= max_requests,
                    requests@ == open@.take(request_counter as int),
                decreases open@.len() - request_counter,
            {
                requests.push(open[request_counter].clone());
                request_counter += 1;
                assert(requests@ =~= open@.take(request_counter as int));
            }
            result.push(
                AccountRequests {
                    account: self.requests[account_counter].account.clone(),
                    requests,
                },
            );
            account_counter += 1;
        }
        result
    }

    /// Of the first `max_num_accounts` accounts, in ascending order: the
    /// first `max_requests` of its open requests that are to be answered by
    /// calling `method`, in ascending order of their nonces.
    pub fn get_requests_calling(&self, method: &String, max_num_accounts: u64, max_requests: u64) -> (listed:
        Vec<AccountRequests>)
        ensures
            listed@.len() == at_most(max_num_accounts, self.requests@.len()),
            forall|i: int|
                0 <= i < listed@.len() ==> (#[trigger] listed@[i]).account@
                    == self.requests@[i].account@ && listed@[i].requests@ == first_calling(
                    self.requests@[i].requests@,
                    method@,
                    max_requests,
                ),
    {
        let mut result: Vec<AccountRequests> = Vec::new();
        let mut account_counter: usize = 0;
        while account_counter < self.requests.len() && (account_counter as u64) < max_num_accounts
            invariant
                account_counter <= self.requests@.len(),
                account_counter <= max_num_accounts,
                result@.len() == account_counter,
                forall|i: int|
                    0 <= i < account_counter ==> (#[trigger] result@[i]).account@
                        == self.requests@[i].account@ && result@[i].requests@ == first_calling(
                        self.requests@[i].requests@,
                        method@,
                        max_requests,
                    ),
            decreases self.requests@.len() - account_counter,
        {
            let open = &self.requests[account_counter].requests;
            let ghost calls = |r: RequestsJSON| r.request.callback_method@ == method@;
            let mut requests: Vec<RequestsJSON> = Vec::new();
            let mut seen: usize = 0;
            assert(open@.take(0).filter(calls) =~= Seq::<RequestsJSON>::empty());
            while seen < open.len()
                invariant
                    seen <= open@.len(),
                    calls == |r: RequestsJSON| r.request.callback_method@ == method@,
                    requests@ == open@.take(seen as int).filter(calls).take(
                        at_most(max_requests, open@.take(seen as int).filter(calls).len()),
                    ),
                decreases open@.len() - seen,
            {
                let ghost had = open@.take(seen as int).filter(calls);
                proof {
                    assert(open@.take(seen + 1).drop_last() =~= open@.take(seen as int));
                    assert(open@.take(seen + 1).last() == open@[seen as int]);
                    reveal(Seq::filter);
                }
                if open[seen].request.callback_method == *method && (requests.len() as u64)
                    < max_requests {
                    assert(requests@ =~= had);
                    requests.push(open[seen].clone());
                    assert(requests@ =~= had.push(open@[seen as int]));
                }
                seen += 1;
                assert(requests@ =~= open@.take(seen as int).filter(calls).take(
                    at_most(max_requests, open@.take(seen as int).filter(calls).len()),
                ));
            }
            assert(open@.take(seen as int) =~= open@);
            result.push(
                AccountRequests {
                    account: self.requests[account_counter].account.clone(),
                    requests,
                },
            );
            account_counter += 1;
        }
        result
    }

    /// Of the first `max_num_accounts` accounts: the first `max_requests` of
    /// its open requests for a verdict on a campaign.
    pub fn get_campaign_requests(&self, max_num_accounts: u64, max_requests: u64) -> (listed: Vec<
        AccountRequests,
    >)
        ensures
            listed@.len() == at_most(max_num_accounts, self.requests@.len()),
            forall|i: int|
                0 <= i < listed@.len() ==> (#[trigger] listed@[i]).account@
                    == self.requests@[i].account@ && listed@[i].requests@ == first_calling(
                    self.requests@[i].requests@,
                    CAMPAIGN_CALLBACK@,
                    max_requests,
                ),
    {
        let method = String::from_str(CAMPAIGN_CALLBACK);
        self.get_requests_calling(&method, max_num_accounts, max_requests)
    }

    /// Of the first `max_num_accounts` accounts: the first `max_requests` of
    /// its open requests for the renewal of a pass.
    pub fn get_subscription_renewal_requests(&self, max_num_accounts: u64, max_requests: u64) -> (listed:
        Vec<AccountRequests>)
        ensures
            listed@.len() == at_most(max_num_accounts, self.requests@.len()),
            forall|i: int|
                0 <= i < listed@.len() ==> (#[trigger] listed@[i]).account@
                    == self.requests@[i].account@ && listed@[i].requests@ == first_calling(
                    self.requests@[i].requests@,
                    RENEWAL_CALLBACK@,
                    max_requests,
                ),
    {
        let method = String::from_str(RENEWAL_CALLBACK);
        self.get_requests_calling(&method, max_num_accounts, max_requests)
    }
}

} // verus!
