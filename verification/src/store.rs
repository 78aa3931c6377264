use vstd::prelude::*;

use crate::errors::Error;
use crate::index::{
    bucket_add, buckets_valid, bucket_ok, find_bucket, key_sel, lemma_buckets_stable,
    lemma_ids_unique, matching_ids, records_at, IdBucket,
};
use crate::item::{item_valid, transition_ok, WorkItem};

verus! {

/// Position-keyed records: the id of each record equals its position in
/// insertion order, and each record is internally coherent.
pub open spec fn records_valid(items: Seq<WorkItem>) -> bool {
    forall|i: int| 0 <= i < items.len() ==> (#[trigger] items[i]).id == i && item_valid(items[i])
}

/// The poster key of a record; every record has one.
pub open spec fn poster_key(it: WorkItem) -> Option<Seq<char>> {
    Some(it.poster@)
}

/// The claimant key of a record; present once the item is claimed.
pub open spec fn claimant_key(it: WorkItem) -> Option<Seq<char>> {
    match it.claimant {
        Some(c) => Some(c@),
        None => None,
    }
}

/// `poster_key` as a value, so every use names one function.
pub open spec fn poster_key_fn() -> spec_fn(WorkItem) -> Option<Seq<char>> {
    |it: WorkItem| poster_key(it)
}

/// `claimant_key` as a value, so every use names one function.
pub open spec fn claimant_key_fn() -> spec_fn(WorkItem) -> Option<Seq<char>> {
    |it: WorkItem| claimant_key(it)
}

/// The ids of the items posted by `p`, in insertion order.
pub open spec fn ids_posted_by(items: Seq<WorkItem>, p: Seq<char>) -> Seq<u64> {
    matching_ids(items, key_sel(poster_key_fn(), p))
}

/// The ids of the items claimed by `c`, in insertion order.
pub open spec fn ids_claimed_by(items: Seq<WorkItem>, c: Seq<char>) -> Seq<u64> {
    matching_ids(items, key_sel(claimant_key_fn(), c))
}

/// The canonical record store together with its secondary indices.
///
/// Each work item is stored exactly once, at the position equal to its
/// id; the by-poster and by-claimant indices hold only ids and every
/// listing dereferences through the canonical records, so no index can
/// ever disagree with them.
pub struct WorkItemStore {
    items: Vec<WorkItem>,
    by_poster: Vec<IdBucket>,
    by_claimant: Vec<IdBucket>,
}

impl View for WorkItemStore {
    type V = Seq<WorkItem>;

    closed spec fn view(&self) -> Seq<WorkItem> {
        self.items@
    }
}

impl WorkItemStore {
    /// The store invariant; established by `new` and preserved by every
    /// operation.
    pub closed spec fn wf(&self) -> bool {
        &&& records_valid(self@)
        &&& buckets_valid(self.by_poster@, self@, poster_key_fn())
        &&& buckets_valid(self.by_claimant@, self@, claimant_key_fn())
    }

    /// A well-formed store has position-keyed, coherent records.
    pub proof fn lemma_wf_records(&self)
        requires
            self.wf(),
        ensures
            records_valid(self@),
    {
    }

    /// The store never holds more records than ids fit in a machine
    /// word: each record's position is its id.
    pub proof fn lemma_len_bound(&self)
        ensures
            self@.len() <= u64::MAX,
    {
        assert(self.items@.len() == vstd::std_specs::vec::spec_vec_len(&self.items));
    }

    /// An empty store.
    pub fn new() -> (s: WorkItemStore)
        ensures
            s@ == Seq::<WorkItem>::empty(),
            s.wf(),
    {
        WorkItemStore { items: Vec::new(), by_poster: Vec::new(), by_claimant: Vec::new() }
    }

    /// How many records the store holds.
    pub fn len(&self) -> (n: usize)
        ensures
            n == self@.len(),
    {
        self.items.len()
    }

    /// The id the next inserted record must carry.
    pub fn next_id(&self) -> (id: u64)
        ensures
            id == self@.len(),
    {
        self.items.len() as u64
    }

    /// Borrow the canonical record of `id`.
    pub(crate) fn item_ref(&self, id: u64) -> (r: &WorkItem)
        requires
            id < self@.len(),
        ensures
            *r == self@[id as int],
    {
        let n = self.items.len();
        assert(id < n as u64);
        &self.items[id as usize]
    }

    /// A copy of the canonical record of `id`, or `NotFound`.
    pub fn get(&self, id: u64) -> (result: Result<WorkItem, Error>)
        ensures
            id < self@.len() ==> (result matches Ok(it) && it == self@[id as int]),
            id >= self@.len() ==> result == Err::<WorkItem, Error>(Error::NotFound),
    {
        if id < self.items.len() as u64 {
            Ok(self.items[id as usize].clone())
        } else {
            Err(Error::NotFound)
        }
    }

    /// Write a fresh canonical record and mirror it in the indices, all
    /// in one operation.
    ///
    /// The record must be in its initial state: `Open`, with no
    /// claimant. Fails with `DuplicateId`, changing nothing, exactly
    /// when `item.id` is not the next fresh id — with engine-assigned
    /// ids that cannot happen.
    pub fn insert(&mut self, item: WorkItem) -> (result: Result<(), Error>)
        requires
            old(self).wf(),
            item.status is Open,
            item.claimant is None,
        ensures
            final(self).wf(),
            item.id != old(self)@.len() ==> (result == Err::<(), Error>(Error::DuplicateId)
                && final(self)@ == old(self)@),
            item.id == old(self)@.len() ==> (result == Ok::<(), Error>(()) && final(self)@ == old(
                self,
            )@.push(item)),
    {
        let id = self.items.len() as u64;
        if item.id != id {
            return Err(Error::DuplicateId);
        }
        let key = item.poster.clone();
        let ghost items_old = self.items@;
        self.items.push(item);
        let ghost items_new = self.items@;
        bucket_add(
            &mut self.by_poster,
            &key,
            id,
            Ghost(items_old),
            Ghost(items_new),
            Ghost(poster_key_fn()),
        );
        proof {
            lemma_buckets_stable(self.by_claimant@, items_old, items_new, claimant_key_fn());
        }
        Ok(())
    }

    /// Replace the canonical record of `id` and keep every index in
    /// step, in one operation.
    ///
    /// The replacement must describe the same item: same id, same
    /// poster, a coherent record, a legal status transition, and a
    /// claimant that is never cleared or reassigned (it may only be set,
    /// once, by the claiming transition). Fails with `NotFound`,
    /// changing nothing, exactly when `id` has no record.
    pub fn update(&mut self, id: u64, item: WorkItem) -> (result: Result<(), Error>)
        requires
            old(self).wf(),
            id < old(self)@.len() ==> ({
                let cur = old(self)@[id as int];
                &&& item.id == id
                &&& item.poster@ == cur.poster@
                &&& item_valid(item)
                &&& transition_ok(cur.status, item.status)
                &&& (cur.claimant matches Some(c) ==> (item.claimant matches Some(c2) && c2@
                    == c@))
            }),
        ensures
            final(self).wf(),
            id >= old(self)@.len() ==> (result == Err::<(), Error>(Error::NotFound) && final(self)@
                == old(self)@),
            id < old(self)@.len() ==> (result == Ok::<(), Error>(()) && final(self)@ == old(
                self,
            )@.update(id as int, item)),
    {
        if id >= self.items.len() as u64 {
            return Err(Error::NotFound);
        }
        let i = id as usize;
        let newly_claimed = self.items[i].claimant.is_none() && item.claimant.is_some();
        let claim_key: Option<String> = (if newly_claimed {
            match &item.claimant {
                Some(c) => Some(c.clone()),
                None => None,
            }
        } else {
            None
        });
        let ghost items_old = self.items@;
        self.items[i] = item;
        let ghost items_new = self.items@;
        proof {
            lemma_buckets_stable(self.by_poster@, items_old, items_new, poster_key_fn());
        }
        match claim_key {
            Some(ck) => {
                bucket_add(
                    &mut self.by_claimant,
                    &ck,
                    id,
                    Ghost(items_old),
                    Ghost(items_new),
                    Ghost(claimant_key_fn()),
                );
            },
            None => {
                proof {
                    lemma_buckets_stable(
                        self.by_claimant@,
                        items_old,
                        items_new,
                        claimant_key_fn(),
                    );
                }
            },
        }
        Ok(())
    }

    /// Copies of all records, in insertion order.
    pub fn list_all(&self) -> (result: Vec<WorkItem>)
        ensures
            result@ == self@,
    {
        let mut out: Vec<WorkItem> = Vec::new();
        let mut i: usize = 0;
        while i < self.items.len()
            invariant
                i <= self@.len(),
                out@ == self@.take(i as int),
            decreases self@.len() - i,
        {
            out.push(self.items[i].clone());
            i = i + 1;
        }
        proof {
            assert(self@.take(self@.len() as int) =~= self@);
        }
        out
    }

    /// Copies of the items posted by `poster`, in insertion order,
    /// dereferenced through the canonical records.
    pub fn list_by_poster(&self, poster: &String) -> (result: Vec<WorkItem>)
        requires
            self.wf(),
        ensures
            result@ == records_at(self@, ids_posted_by(self@, poster@)),
    {
        deref_matching(&self.items, &self.by_poster, poster, Ghost(poster_key_fn()))
    }

    /// Copies of the items claimed by `claimant`, in insertion order,
    /// dereferenced through the canonical records.
    pub fn list_by_claimant(&self, claimant: &String) -> (result: Vec<WorkItem>)
        requires
            self.wf(),
        ensures
            result@ == records_at(self@, ids_claimed_by(self@, claimant@)),
    {
        deref_matching(&self.items, &self.by_claimant, claimant, Ghost(claimant_key_fn()))
    }
}

/// Resolve the bucket of `key` and dereference its ids through the
/// canonical records. The bucket invariant together with
/// `lemma_ids_unique` pins the result to `matching_ids`.
fn deref_matching(
    items: &Vec<WorkItem>,
    buckets: &Vec<IdBucket>,
    key: &String,
    Ghost(key_of): Ghost<spec_fn(WorkItem) -> Option<Seq<char>>>,
) -> (result: Vec<WorkItem>)
    requires
        buckets_valid(buckets@, items@, key_of),
    ensures
        result@ == records_at(items@, matching_ids(items@, key_sel(key_of, key@))),
{
    let n_items = items.len();
    assert(items@.len() <= u64::MAX);
    let ghost sel = key_sel(key_of, key@);
    let found = find_bucket(buckets, key);
    match found {
        None => {
            proof {
                assert forall|j: int| 0 <= j < items@.len() implies !(#[trigger] sel(items@[j])) by {
                    if sel(items@[j]) {
                        assert(key_of(items@[j]) is Some);
                        let a = choose|a: int|
                            0 <= a < buckets@.len() && buckets@[a].key@ == key_of(items@[j])->0
                                && buckets@[a].ids@.contains(j as u64);
                        assert(buckets@[a].key@ == key@);
                    }
                }
                lemma_ids_unique(items@, sel, Seq::<u64>::empty());
                assert(records_at(items@, matching_ids(items@, sel))
                    =~= Seq::<WorkItem>::empty());
            }
            Vec::new()
        },
        Some(b) => {
            proof {
                let bb = buckets@[b as int];
                assert(bucket_ok(bb, items@, key_of));
                assert forall|k: int| 0 <= k < bb.ids@.len() implies #[trigger] bb.ids@[k]
                    < items@.len() && sel(items@[bb.ids@[k] as int]) by {
                    assert(key_of(items@[bb.ids@[k] as int]) == Some(bb.key@));
                }
                assert forall|j: int| 0 <= j < items@.len() && #[trigger] sel(items@[j]) implies
                    bb.ids@.contains(j as u64) by {
                    assert(key_of(items@[j]) is Some);
                    let a = choose|a: int|
                        0 <= a < buckets@.len() && buckets@[a].key@ == key_of(items@[j])->0
                            && buckets@[a].ids@.contains(j as u64);
                    assert(buckets@[a].key@ == key@);
                    if a != b {
                        assert(buckets@[a].key@ != buckets@[b as int].key@);
                    }
                }
                lemma_ids_unique(items@, sel, bb.ids@);
            }
            let ids = &buckets[b].ids;
            let mut out: Vec<WorkItem> = Vec::new();
            let mut k: usize = 0;
            while k < ids.len()
                invariant
                    n_items == items@.len(),
                    k <= ids@.len(),
                    out@.len() == k,
                    forall|t: int| 0 <= t < k ==> out@[t] == items@[ids@[t] as int],
                    forall|t: int| 0 <= t < ids@.len() ==> #[trigger] ids@[t] < items@.len(),
                decreases ids@.len() - k,
            {
                let id = ids[k];
                assert(id < n_items as u64);
                out.push(items[id as usize].clone());
                k = k + 1;
            }
            proof {
                assert(out@ =~= records_at(items@, ids@));
            }
            out
        },
    }
}

} // verus!
