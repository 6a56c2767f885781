//! Laws of the registry: what holds of every state that the operations can
//! reach, and of the operations taken together.
use vstd::prelude::*;

use crate::ident::{AssetId, OwnerId};
use crate::outcome::{Balance, Error, Event, PaymentError};
use crate::state::RegistryState;

verus! {

/// A call that the registry serves.
pub enum Call {
    /// Mint the asset `id` for `to`.
    Mint { to: OwnerId, id: AssetId },
    /// Give the asset `id` of `caller` to `to`.
    Transfer { caller: OwnerId, to: OwnerId, id: AssetId },
    /// Put `price` on the asset `id` of `caller`.
    SetPrice { caller: OwnerId, id: AssetId, price: Balance },
    /// Buy the asset `id` for `buyer` at no more than `max_price`, where the
    /// funds ledger answered the payment with `paid`.
    Buy { buyer: OwnerId, id: AssetId, max_price: Balance, paid: Result<(), PaymentError> },
}

/// What the registry in `state` answers to `call`.
pub open spec fn answer(state: RegistryState, call: Call) -> Result<Event, Error> {
    match call {
        Call::Mint { to, id } => state.mint_outcome(to, id),
        Call::Transfer { caller, to, id } => state.transfer_outcome(caller, to, id),
        Call::SetPrice { caller, id, price } => state.set_price_outcome(caller, id, price),
        Call::Buy { buyer, id, max_price, paid } => state.buy_outcome(buyer, id, max_price, paid),
    }
}

/// The registry after it served `call` in `state`. A call that is refused
/// changes nothing.
pub open spec fn served(state: RegistryState, call: Call) -> RegistryState {
    if answer(state, call) is Err {
        state
    } else {
        match call {
            Call::Mint { to, id } => state.minted(to, id),
            Call::Transfer { caller, to, id } => state.transferred(caller, to, id),
            Call::SetPrice { caller, id, price } => state.priced(id, price),
            Call::Buy { buyer, id, max_price, paid } => state.bought(buyer, id),
        }
    }
}

/// The registry after it served `calls`, one after the other, starting
/// empty.
pub open spec fn after_calls(calls: Seq<Call>) -> RegistryState
    decreases calls.len(),
{
    if calls.len() == 0 {
        RegistryState::empty()
    } else {
        served(after_calls(calls.drop_last()), calls.last())
    }
}

/// Serving a call leaves the registry as it must be.
pub proof fn lemma_served_inv(state: RegistryState, call: Call)
    requires
        state.inv(),
    ensures
        served(state, call).inv(),
{
    if answer(state, call) is Ok {
        match call {
            Call::Mint { to, id } => {
                state.lemma_minted_inv(to, id);
            },
            Call::Transfer { caller, to, id } => {
                state.lemma_transferred_inv(caller, to, id);
            },
            Call::SetPrice { caller, id, price } => {
                state.lemma_priced_inv(id, price);
            },
            Call::Buy { buyer, id, max_price, paid } => {
                state.lemma_bought_inv(buyer, id, max_price);
            },
        }
    }
}

/// Whatever calls the registry has served, it is as it must be.
pub proof fn lemma_inv_at_all_times(calls: Seq<Call>)
    ensures
        after_calls(calls).inv(),
    decreases calls.len(),
{
    if calls.len() > 0 {
        lemma_inv_at_all_times(calls.drop_last());
        lemma_served_inv(after_calls(calls.drop_last()), calls.last());
    }
}

/// Whatever calls the registry has served, an asset has an owner if and
/// only if it exists, and then the index of its owner holds it at exactly
/// one position.
pub proof fn lemma_one_owner_at_all_times(calls: Seq<Call>, id: AssetId)
    ensures
        after_calls(calls).owner_of(id) is Some <==> after_calls(calls).has_asset(id),
        after_calls(calls).has_asset(id) ==> occurs_once(
            after_calls(calls).owned_list(after_calls(calls).owners[id]),
            id,
        ),
{
    lemma_inv_at_all_times(calls);
    lemma_one_owner(after_calls(calls), id);
}

/// The identifiers that a sequence of mint requests names.
pub open spec fn requested_ids(requests: Seq<(OwnerId, AssetId)>) -> Set<AssetId> {
    Set::new(|id: AssetId| exists|i: int| 0 <= i < requests.len() && (#[trigger] requests[i]).1 == id)
}

/// The registry after a sequence of mint requests, each for an account and
/// an identifier, made one after the other on an empty registry. A request
/// that is refused changes nothing.
pub open spec fn after_mints(requests: Seq<(OwnerId, AssetId)>) -> RegistryState
    decreases requests.len(),
{
    if requests.len() == 0 {
        RegistryState::empty()
    } else {
        let before = after_mints(requests.drop_last());
        let (to, id) = requests.last();
        if before.mint_outcome(to, id) is Ok {
            before.minted(to, id)
        } else {
            before
        }
    }
}

/// After any sequence of mint requests the registry is as it must be, the
/// global count is the number of distinct identifiers that were minted, and
/// each of them stands at exactly one position of the global index. As long
/// as a count can represent the number of requests, the identifiers that
/// were minted are the identifiers that were requested.
pub proof fn lemma_mint_sequences(requests: Seq<(OwnerId, AssetId)>)
    ensures
        after_mints(requests).inv(),
        after_mints(requests).assets.dom().finite(),
        after_mints(requests).global_count() == after_mints(requests).assets.dom().len(),
        after_mints(requests).global_count() <= requests.len(),
        forall|id: AssetId| #[trigger]
            after_mints(requests).has_asset(id) ==> occurs_once(after_mints(requests).all, id),
        requests.len() <= u64::MAX ==> after_mints(requests).assets.dom() == requested_ids(
            requests,
        ),
    decreases requests.len(),
{
    let state = after_mints(requests);
    if requests.len() == 0 {
        assert(state.assets.dom() =~= requested_ids(requests));
    } else {
        let earlier = requests.drop_last();
        let before = after_mints(earlier);
        let (to, id) = requests.last();
        lemma_mint_sequences(earlier);
        if before.mint_outcome(to, id) is Ok {
            before.lemma_minted_inv(to, id);
        }
        lemma_count_is_cardinality(state);
        assert forall|k: AssetId| #[trigger] state.has_asset(k) implies occurs_once(
            state.all,
            k,
        ) by {
            lemma_one_position(state, k);
        }
        if requests.len() <= u64::MAX {
            before.lemma_owned_count_bounded(to);
            assert(before.mint_outcome(to, id) is Ok || before.has_asset(id));
            assert forall|k: AssetId| state.assets.dom().contains(k) == requested_ids(
                requests,
            ).contains(k) by {
                if requested_ids(requests).contains(k) {
                    let i = choose|i: int| 0 <= i < requests.len() && (#[trigger] requests[i]).1 == k;
                    if i < earlier.len() {
                        assert(earlier[i].1 == k);
                        assert(requested_ids(earlier).contains(k));
                    }
                }
                if requested_ids(earlier).contains(k) {
                    let i = choose|i: int| 0 <= i < earlier.len() && (#[trigger] earlier[i]).1 == k;
                    assert(requests[i].1 == k);
                }
                if k == id {
                    assert(requests[requests.len() - 1].1 == k);
                }
            }
            assert(state.assets.dom() =~= requested_ids(requests));
        }
    }
}

/// `key` stands at one position of `entries` and at no other.
pub open spec fn occurs_once<K>(entries: Seq<K>, key: K) -> bool {
    &&& entries.contains(key)
    &&& forall|p: int, q: int|
        0 <= p < entries.len() && 0 <= q < entries.len() && entries[p] == key && entries[q] == key
            ==> p == q
}

/// The global count is the number of assets.
pub proof fn lemma_count_is_cardinality(state: RegistryState)
    requires
        state.inv(),
    ensures
        state.assets.dom().finite(),
        state.global_count() == state.assets.dom().len(),
{
    state.all.unique_seq_to_set();
    assert(state.all.to_set() =~= state.assets.dom());
}

/// Every asset stands at exactly one position of the global index.
pub proof fn lemma_one_position(state: RegistryState, id: AssetId)
    requires
        state.inv(),
        state.has_asset(id),
    ensures
        occurs_once(state.all, id),
{
}

/// An asset has an owner if and only if it exists. The index of its owner
/// holds it at exactly one position, and the index of no other account
/// holds it.
pub proof fn lemma_one_owner(state: RegistryState, id: AssetId)
    requires
        state.inv(),
    ensures
        state.owner_of(id) is Some <==> state.has_asset(id),
        state.has_asset(id) ==> occurs_once(state.owned_list(state.owners[id]), id),
        forall|other: OwnerId|
            state.owner_of(id) != Some(other) ==> !(#[trigger] state.owned_list(other)).contains(id),
{
    if state.has_asset(id) {
        let owner = state.owners[id];
        assert(state.owned_list(owner).contains(id));
        assert(state.owned.contains_key(owner));
    }
    assert forall|other: OwnerId| state.owner_of(id) != Some(other) implies !(
    #[trigger] state.owned_list(other)).contains(id) by {
        if state.owned_list(other).contains(id) {
            assert(state.owners[id] == other);
        }
    }
}

/// A transfer takes one asset from the count of the giver and adds one to
/// the count of the receiver; no other count changes, and neither does the
/// global index.
pub proof fn lemma_transfer_counts(
    state: RegistryState,
    from: OwnerId,
    to: OwnerId,
    id: AssetId,
    account: OwnerId,
)
    requires
        state.inv(),
        state.transfer_check(from, to, id) is Ok,
    ensures
        state.transferred(from, to, id).owned_count(account) == state.owned_count(account) + (if account
            == to {
            1int
        } else {
            0int
        }) - (if account == from {
            1int
        } else {
            0int
        }),
        state.transferred(from, to, id).all == state.all,
        state.transferred(from, to, id).owner_of(id) == Some(to),
{
    let list = state.owned_list(from);
    assert(list.contains(id));
}

/// Giving an asset away and getting it back restores its owner and both
/// accounts' counts. The positions in the accounts' indexes may differ from
/// what they were.
pub proof fn lemma_transfer_round_trip(state: RegistryState, a: OwnerId, b: OwnerId, id: AssetId)
    requires
        state.inv(),
        state.transfer_outcome(a, b, id) is Ok,
    ensures
        state.transferred(a, b, id).transfer_outcome(b, a, id) is Ok,
        state.transferred(a, b, id).transferred(b, a, id).owner_of(id) == state.owner_of(id),
        state.transferred(a, b, id).transferred(b, a, id).owned_count(a) == state.owned_count(a),
        state.transferred(a, b, id).transferred(b, a, id).owned_count(b) == state.owned_count(b),
        state.transferred(a, b, id).transferred(b, a, id).inv(),
{
    let there = state.transferred(a, b, id);
    state.lemma_owned_count_bounded(a);
    state.lemma_transferred_inv(a, b, id);
    lemma_transfer_counts(state, a, b, id, a);
    lemma_transfer_counts(state, a, b, id, b);
    there.lemma_transferred_inv(b, a, id);
    lemma_transfer_counts(there, b, a, id, a);
    lemma_transfer_counts(there, b, a, id, b);
}

/// In a registry that is as it must be, the faults of inconsistency do not
/// occur: an asset that exists has an owner, an owner never has a count of
/// zero, and a purchase is refused for no other reason than its own checks
/// and the ledger's refusal.
pub proof fn lemma_faults_do_not_occur(
    state: RegistryState,
    caller: OwnerId,
    to: OwnerId,
    id: AssetId,
    price: Balance,
    paid: Result<(), PaymentError>,
)
    requires
        state.inv(),
    ensures
        !(state.transfer_outcome(caller, to, id) matches Err(
            Error::UnderflowRemovingFromAccountBalance,
        )),
        !(state.set_price_outcome(caller, id, price) matches Err(Error::NoOwner)),
        !(state.buy_outcome(caller, id, price, paid) matches Err(Error::NoOwner)),
{
    if state.owners.contains_key(id) {
        assert(state.owned_list(state.owners[id]).contains(id));
    }
}

/// A purchase whose payment the ledger refused is itself refused, whatever
/// the registry holds.
pub proof fn lemma_refused_payment_is_no_sale(
    state: RegistryState,
    buyer: OwnerId,
    id: AssetId,
    max_price: Balance,
    refusal: PaymentError,
)
    ensures
        state.buy_outcome(buyer, id, max_price, Err(refusal)) is Err,
{
}

} // verus!
