use vstd::prelude::*;

use crate::actor::Actor;
use crate::errors::Error;
use crate::index::{key_sel, lemma_matching_ids_props, records_at};
use crate::item::WorkItem;
use crate::lifecycle::{claim_check, settle_check, settled_item};
use crate::store::{
    claimant_key_fn, ids_claimed_by, ids_posted_by, poster_key_fn, records_valid,
};

verus! {

/// A record created fresh — next id, `Open`, no claimant — is read back
/// exactly so: the record at its id in the grown store is the new one,
/// still `Open` with the claimant unset.
pub proof fn lemma_created_item_open(items: Seq<WorkItem>, it: WorkItem)
    requires
        it.id == items.len(),
        it.status is Open,
        it.claimant is None,
    ensures
        items.push(it)[it.id as int] == it,
        items.push(it)[it.id as int].status is Open,
        items.push(it)[it.id as int].claimant is None,
{
}

/// The secondary listings can never disagree with the canonical record:
/// in the by-poster listing of a record's poster the record's id occurs,
/// and every entry carrying that id is the canonical record itself —
/// field-identical, because it is dereferenced, never copied. Once the
/// record is claimed, the same holds of the by-claimant listing of its
/// claimant.
pub proof fn lemma_indices_agree_with_canonical(items: Seq<WorkItem>, id: int)
    requires
        records_valid(items),
        items.len() <= u64::MAX,
        0 <= id < items.len(),
    ensures
        ({
            let l = records_at(items, ids_posted_by(items, items[id].poster@));
            &&& exists|k: int| 0 <= k < l.len() && (#[trigger] l[k]).id == items[id].id
            &&& forall|k: int|
                0 <= k < l.len() && (#[trigger] l[k]).id == items[id].id ==> l[k] == items[id]
        }),
        items[id].claimant matches Some(c) ==> ({
            let l = records_at(items, ids_claimed_by(items, c@));
            &&& exists|k: int| 0 <= k < l.len() && (#[trigger] l[k]).id == items[id].id
            &&& forall|k: int|
                0 <= k < l.len() && (#[trigger] l[k]).id == items[id].id ==> l[k] == items[id]
        }),
{
    let psel = key_sel(poster_key_fn(), items[id].poster@);
    let pids = ids_posted_by(items, items[id].poster@);
    let pl = records_at(items, pids);
    lemma_matching_ids_props(items, psel);
    assert(psel(items[id]));
    assert(pids.contains(id as u64));
    let k0 = choose|k: int| 0 <= k < pids.len() && pids[k] == id as u64;
    assert(pl[k0].id == items[id].id);
    assert forall|k: int|
        0 <= k < pl.len() && (#[trigger] pl[k]).id == items[id].id implies pl[k] == items[id] by {
        assert(pl[k] == items[pids[k] as int]);
        assert(items[pids[k] as int].id == pids[k]);
    }
    if items[id].claimant is Some {
        let c = items[id].claimant->0;
        let csel = key_sel(claimant_key_fn(), c@);
        let cids = ids_claimed_by(items, c@);
        let cl = records_at(items, cids);
        lemma_matching_ids_props(items, csel);
        assert(csel(items[id]));
        assert(cids.contains(id as u64));
        let k1 = choose|k: int| 0 <= k < cids.len() && cids[k] == id as u64;
        assert(cl[k1].id == items[id].id);
        assert forall|k: int|
            0 <= k < cl.len() && (#[trigger] cl[k]).id == items[id].id implies cl[k] == items[id]
        by {
            assert(cl[k] == items[cids[k] as int]);
            assert(items[cids[k] as int].id == cids[k]);
        }
    }
}

/// Settlement happens at most once. A settlement that is owed succeeds
/// only for exactly the price; and once it has run, a second settlement
/// of the same id fails `AlreadySettled` — whoever calls, whatever they
/// offer — so no second transfer is ever issued.
pub proof fn lemma_settle_at_most_once(
    items: Seq<WorkItem>,
    caller: Seq<char>,
    id: u64,
    offered: u128,
)
    requires
        settle_check(items, caller, id, offered) is None,
    ensures
        offered == items[id as int].price,
        forall|caller2: Seq<char>, offered2: u128|
            settle_check(
                items.update(id as int, settled_item(items[id as int])),
                caller2,
                id,
                offered2,
            ) == Some(Error::AlreadySettled),
{
}

/// A poster can never claim their own item: whatever roles the poster
/// holds and whatever the item's state, the claim is rejected as
/// `SelfClaimForbidden` — and a rejected claim changes nothing, so the
/// item stays as it was.
pub proof fn lemma_self_claim_rejected(
    actors: Seq<Actor>,
    items: Seq<WorkItem>,
    caller: Seq<char>,
    id: u64,
)
    requires
        id < items.len(),
        items[id as int].poster@ == caller,
    ensures
        claim_check(actors, items, caller, id) == Some(Error::SelfClaimForbidden),
{
}

} // verus!
