use vstd::prelude::*;

use crate::actor::{registered_overlapping, Actor, ActorDirectory, Role};
use crate::errors::Error;
use crate::item::{apply_edit, transition_ok, ItemEdit, Status, TransferReceipt, WorkItem};
use crate::lifecycle::{
    claim_check, claimed_item, complete_check, completed_item, create_check, edit_check,
    expire_check, expired_item, settle_check, settled_item,
};
use crate::index::records_at;
use crate::store::{ids_claimed_by, ids_posted_by, records_valid, WorkItemStore};

verus! {

/// The registry engine: the actor directory, the canonical record store
/// and its indices, behind the one call surface the host exposes.
///
/// Calls arrive one at a time; each call either commits all of its
/// writes or — on any failure — none, which the contracts state
/// explicitly. The caller identity handed to each operation is trusted:
/// the host environment authenticates it.
pub struct Marketplace {
    directory: ActorDirectory,
    store: WorkItemStore,
}

impl Marketplace {
    /// The registered actors, in registration order.
    pub closed spec fn actors(&self) -> Seq<Actor> {
        self.directory@
    }

    /// The canonical work-item records, in insertion order; the record
    /// of id `i` sits at position `i`.
    pub closed spec fn items(&self) -> Seq<WorkItem> {
        self.store@
    }

    /// The engine invariant; established by `new` and preserved by
    /// every operation.
    pub closed spec fn wf(&self) -> bool {
        self.directory.wf() && self.store.wf()
    }

    /// A well-formed engine has position-keyed, coherent records, and
    /// few enough of them that every id fits its machine word.
    pub proof fn lemma_wf(&self)
        requires
            self.wf(),
        ensures
            records_valid(self.items()),
            self.items().len() <= u64::MAX,
    {
        self.store.lemma_wf_records();
        self.store.lemma_len_bound();
    }

    /// An empty registry.
    pub fn new() -> (m: Marketplace)
        ensures
            m.wf(),
            m.actors() == Seq::<Actor>::empty(),
            m.items() == Seq::<WorkItem>::empty(),
    {
        Marketplace { directory: ActorDirectory::new(), store: WorkItemStore::new() }
    }

    /// How many actors are registered.
    pub fn actor_count(&self) -> (n: usize)
        ensures
            n == self.actors().len(),
    {
        self.directory.len()
    }

    /// How many work items the registry holds.
    pub fn item_count(&self) -> (n: usize)
        ensures
            n == self.items().len(),
    {
        self.store.len()
    }

    /// Register `who` with a role and profile.
    ///
    /// Fails with `AlreadyRegistered`, changing nothing, exactly when an
    /// existing entry of `who` already covers part of the requested
    /// role; otherwise the entry is appended and a copy returned.
    pub fn register_actor(&mut self, who: String, role: Role, profile: String) -> (result: Result<
        Actor,
        Error,
    >)
        requires
            old(self).wf(),
        ensures
            final(self).wf(),
            final(self).items() == old(self).items(),
            registered_overlapping(old(self).actors(), who@, role) ==> (result == Err::<
                Actor,
                Error,
            >(Error::AlreadyRegistered) && final(self).actors() == old(self).actors()),
            !registered_overlapping(old(self).actors(), who@, role) ==> (result matches Ok(a)
                && a.identity@ == who@ && a.role == role && a.profile == profile && final(self).actors() == old(self).actors().push(a)),
    {
        self.directory.register(who, role, profile)
    }

    /// Look up the first directory entry of `who`, in registration
    /// order. Fails with `NotFound` exactly when `who` has no entry.
    pub fn lookup_actor(&self, who: &String) -> (result: Result<Actor, Error>)
        ensures
            (exists|j: int|
                0 <= j < self.actors().len() && self.actors()[j].identity@ == who@) <==> result
                is Ok,
            result matches Ok(a) ==> exists|j: int|
                0 <= j < self.actors().len() && self.actors()[j].identity@ == who@ && a
                    == self.actors()[j] && (forall|k: int|
                    0 <= k < j ==> self.actors()[k].identity@ != who@),
            result is Err ==> result == Err::<Actor, Error>(Error::NotFound),
    {
        self.directory.lookup(who)
    }

    /// Every directory entry, in registration order.
    pub fn list_actors(&self) -> (result: Vec<Actor>)
        ensures
            result@ == self.actors(),
    {
        self.directory.list()
    }

    /// Create a work item: the poster must hold the poster capability
    /// (else `UnauthorizedRole`, changing nothing). On success the new
    /// record — engine-assigned fresh id, status `Open`, no claimant —
    /// is appended to the canonical store and mirrored in the indices,
    /// and a copy of it is returned.
    pub fn create_item(
        &mut self,
        poster: String,
        title: String,
        description: String,
        attributes: String,
        price: u128,
    ) -> (result: Result<WorkItem, Error>)
        requires
            old(self).wf(),
        ensures
            final(self).wf(),
            final(self).actors() == old(self).actors(),
            create_check(old(self).actors(), poster@) matches Some(e) ==> (result == Err::<
                WorkItem,
                Error,
            >(e) && final(self).items() == old(self).items()),
            create_check(old(self).actors(), poster@) is None ==> (result matches Ok(it) && it.id
                == old(self).items().len() && it.poster == poster && it.title == title
                && it.description == description && it.attributes == attributes && it.price == price
                && it.status is Open && it.claimant is None && final(self).items() == old(self).items().push(it)),
            forall|j: int|
                0 <= j < old(self).items().len() ==> transition_ok(
                    old(self).items()[j].status,
                    final(self).items()[j].status,
                ),
    {
        if !self.directory.has_capability(&poster, Role::Poster) {
            return Err(Error::UnauthorizedRole);
        }
        let id = self.store.next_id();
        let item = WorkItem {
            id,
            poster,
            claimant: None,
            title,
            description,
            attributes,
            price,
            status: Status::Open,
        };
        let copy = item.clone();
        let inserted = self.store.insert(item);
        match inserted {
            Ok(_) => Ok(copy),
            Err(e) => Err(e),
        }
    }

    /// Claim an item: `Open -> Claimed`, setting the claimant exactly
    /// once. Fails — changing nothing — as [`claim_check`] says: an
    /// unknown id is `NotFound`, a poster claiming their own item is
    /// `SelfClaimForbidden` whatever their roles, a caller without the
    /// claimant capability is `UnauthorizedRole`, and anything not
    /// `Open` is `AlreadyClaimed`.
    pub fn claim_item(&mut self, caller: String, id: u64) -> (result: Result<(), Error>)
        requires
            old(self).wf(),
        ensures
            final(self).wf(),
            final(self).actors() == old(self).actors(),
            claim_check(old(self).actors(), old(self).items(), caller@, id) matches Some(e) ==> (
            result == Err::<(), Error>(e) && final(self).items() == old(self).items()),
            claim_check(old(self).actors(), old(self).items(), caller@, id) is None ==> (result
                == Ok::<(), Error>(()) && final(self).items() == old(self).items().update(
                id as int,
                claimed_item(old(self).items()[id as int], caller),
            )),
            final(self).items().len() == old(self).items().len(),
            forall|j: int|
                0 <= j < old(self).items().len() ==> transition_ok(
                    old(self).items()[j].status,
                    final(self).items()[j].status,
                ),
    {
        proof {
            self.store.lemma_wf_records();
        }
        if id >= self.store.next_id() {
            return Err(Error::NotFound);
        }
        let claims_own = {
            let it = self.store.item_ref(id);
            it.poster == caller
        };
        if claims_own {
            return Err(Error::SelfClaimForbidden);
        }
        if !self.directory.has_capability(&caller, Role::Claimant) {
            return Err(Error::UnauthorizedRole);
        }
        let status = self.store.item_ref(id).status;
        if status != Status::Open {
            return Err(Error::AlreadyClaimed);
        }
        let mut updated = self.store.item_ref(id).clone();
        updated.status = Status::Claimed;
        updated.claimant = Some(caller);
        let written = self.store.update(id, updated);
        match written {
            Ok(_) => Ok(()),
            Err(e) => Err(e),
        }
    }

    /// Record completion: `Claimed -> Completed`. Fails — changing
    /// nothing — as [`complete_check`] says: unknown id is `NotFound`,
    /// anything not `Claimed` is `WrongState`, and any caller other
    /// than the claimant is `Unauthorized`.
    pub fn complete_item(&mut self, caller: String, id: u64) -> (result: Result<(), Error>)
        requires
            old(self).wf(),
        ensures
            final(self).wf(),
            final(self).actors() == old(self).actors(),
            complete_check(old(self).items(), caller@, id) matches Some(e) ==> (result == Err::<
                (),
                Error,
            >(e) && final(self).items() == old(self).items()),
            complete_check(old(self).items(), caller@, id) is None ==> (result == Ok::<(), Error>(
                (),
            ) && final(self).items() == old(self).items().update(
                id as int,
                completed_item(old(self).items()[id as int]),
            )),
            final(self).items().len() == old(self).items().len(),
            forall|j: int|
                0 <= j < old(self).items().len() ==> transition_ok(
                    old(self).items()[j].status,
                    final(self).items()[j].status,
                ),
    {
        proof {
            self.store.lemma_wf_records();
        }
        if id >= self.store.next_id() {
            return Err(Error::NotFound);
        }
        let status = self.store.item_ref(id).status;
        if status != Status::Claimed {
            return Err(Error::WrongState);
        }
        let by_claimant = {
            let it = self.store.item_ref(id);
            match &it.claimant {
                Some(c) => *c == caller,
                None => false,
            }
        };
        if !by_claimant {
            return Err(Error::Unauthorized);
        }
        let mut updated = self.store.item_ref(id).clone();
        updated.status = Status::Completed;
        let written = self.store.update(id, updated);
        match written {
            Ok(_) => Ok(()),
            Err(e) => Err(e),
        }
    }

    /// Rewrite the mutable fields of an `Open` item. Fails — changing
    /// nothing — as [`edit_check`] says: unknown id is `NotFound`, any
    /// caller other than the poster is `Unauthorized`, and anything not
    /// `Open` is `WrongState`.
    pub fn edit_item(&mut self, caller: String, id: u64, edit: ItemEdit) -> (result: Result<
        (),
        Error,
    >)
        requires
            old(self).wf(),
        ensures
            final(self).wf(),
            final(self).actors() == old(self).actors(),
            edit_check(old(self).items(), caller@, id) matches Some(e) ==> (result == Err::<
                (),
                Error,
            >(e) && final(self).items() == old(self).items()),
            edit_check(old(self).items(), caller@, id) is None ==> (result == Ok::<(), Error>(())
                && final(self).items() == old(self).items().update(
                id as int,
                apply_edit(old(self).items()[id as int], edit),
            )),
            final(self).items().len() == old(self).items().len(),
            forall|j: int|
                0 <= j < old(self).items().len() ==> transition_ok(
                    old(self).items()[j].status,
                    final(self).items()[j].status,
                ),
    {
        proof {
            self.store.lemma_wf_records();
        }
        if id >= self.store.next_id() {
            return Err(Error::NotFound);
        }
        let by_poster = {
            let it = self.store.item_ref(id);
            it.poster == caller
        };
        if !by_poster {
            return Err(Error::Unauthorized);
        }
        let status = self.store.item_ref(id).status;
        if status != Status::Open {
            return Err(Error::WrongState);
        }
        let mut updated = self.store.item_ref(id).clone();
        let ItemEdit { title, description, attributes, price } = edit;
        match title {
            Some(t) => {
                updated.title = t;
            },
            None => {},
        }
        match description {
            Some(d) => {
                updated.description = d;
            },
            None => {},
        }
        match attributes {
            Some(a) => {
                updated.attributes = a;
            },
            None => {},
        }
        match price {
            Some(p) => {
                updated.price = p;
            },
            None => {},
        }
        let written = self.store.update(id, updated);
        match written {
            Ok(_) => Ok(()),
            Err(e) => Err(e),
        }
    }

    /// Expire an item on the host's clock: `Open -> Expired` or
    /// `Claimed -> Expired`; no payout obligation arises. Fails —
    /// changing nothing — as [`expire_check`] says: unknown id is
    /// `NotFound`, any other state is `WrongState`.
    pub fn expire_item(&mut self, id: u64) -> (result: Result<(), Error>)
        requires
            old(self).wf(),
        ensures
            final(self).wf(),
            final(self).actors() == old(self).actors(),
            expire_check(old(self).items(), id) matches Some(e) ==> (result == Err::<(), Error>(e)
                && final(self).items() == old(self).items()),
            expire_check(old(self).items(), id) is None ==> (result == Ok::<(), Error>(()) && final(self).items() == old(self).items().update(
                id as int,
                expired_item(old(self).items()[id as int]),
            )),
            final(self).items().len() == old(self).items().len(),
            forall|j: int|
                0 <= j < old(self).items().len() ==> transition_ok(
                    old(self).items()[j].status,
                    final(self).items()[j].status,
                ),
    {
        proof {
            self.store.lemma_wf_records();
        }
        if id >= self.store.next_id() {
            return Err(Error::NotFound);
        }
        let status = self.store.item_ref(id).status;
        if !(status == Status::Open || status == Status::Claimed) {
            return Err(Error::WrongState);
        }
        let mut updated = self.store.item_ref(id).clone();
        updated.status = Status::Expired;
        let written = self.store.update(id, updated);
        match written {
            Ok(_) => Ok(()),
            Err(e) => Err(e),
        }
    }

    /// Settle a completed item: flip `Completed -> Settled`, then hand
    /// back the one authoritative transfer receipt over exactly the
    /// item's price, owed to its claimant. The status flips before the
    /// host performs the transfer, so a repeated call observes
    /// `Settled` and fails `AlreadySettled` rather than paying twice.
    /// Fails — changing nothing, issuing no receipt — as
    /// [`settle_check`] says.
    pub fn settle_item(&mut self, caller: String, id: u64, offered: u128) -> (result: Result<
        TransferReceipt,
        Error,
    >)
        requires
            old(self).wf(),
        ensures
            final(self).wf(),
            final(self).actors() == old(self).actors(),
            settle_check(old(self).items(), caller@, id, offered) matches Some(e) ==> (result
                == Err::<TransferReceipt, Error>(e) && final(self).items() == old(self).items()),
            settle_check(old(self).items(), caller@, id, offered) is None ==> (result matches Ok(r)
                && r.item_id == id && r.amount == old(self).items()[id as int].price && (old(self).items()[id as int].claimant matches Some(c) && r.recipient == c) && final(self).items() == old(self).items().update(
                id as int,
                settled_item(old(self).items()[id as int]),
            )),
            final(self).items().len() == old(self).items().len(),
            forall|j: int|
                0 <= j < old(self).items().len() ==> transition_ok(
                    old(self).items()[j].status,
                    final(self).items()[j].status,
                ),
    {
        proof {
            self.store.lemma_wf_records();
        }
        if id >= self.store.next_id() {
            return Err(Error::NotFound);
        }
        let status = self.store.item_ref(id).status;
        if status == Status::Settled {
            return Err(Error::AlreadySettled);
        }
        if status != Status::Completed {
            return Err(Error::NotPayable);
        }
        let by_poster = {
            let it = self.store.item_ref(id);
            it.poster == caller
        };
        if !by_poster {
            return Err(Error::Unauthorized);
        }
        let price = self.store.item_ref(id).price;
        if offered != price {
            return Err(Error::AmountMismatch);
        }
        let mut updated = self.store.item_ref(id).clone();
        let recipient = (match &updated.claimant {
            Some(c) => c.clone(),
            None => {
                proof {
                    assert(false);
                }
                String::new()
            },
        });
        updated.status = Status::Settled;
        let written = self.store.update(id, updated);
        match written {
            Ok(_) => Ok(TransferReceipt { item_id: id, recipient, amount: price }),
            Err(e) => Err(e),
        }
    }

    /// A copy of the canonical record of `id`, or `NotFound`.
    pub fn get_item(&self, id: u64) -> (result: Result<WorkItem, Error>)
        ensures
            id < self.items().len() ==> (result matches Ok(it) && it == self.items()[id as int]),
            id >= self.items().len() ==> result == Err::<WorkItem, Error>(Error::NotFound),
    {
        self.store.get(id)
    }

    /// Copies of all records, in insertion order.
    pub fn list_all_items(&self) -> (result: Vec<WorkItem>)
        ensures
            result@ == self.items(),
    {
        self.store.list_all()
    }

    /// Copies of the items posted by `poster`, in insertion order,
    /// dereferenced through the canonical records.
    pub fn list_items_by_poster(&self, poster: &String) -> (result: Vec<WorkItem>)
        requires
            self.wf(),
        ensures
            result@ == records_at(self.items(), ids_posted_by(self.items(), poster@)),
    {
        self.store.list_by_poster(poster)
    }

    /// Copies of the items claimed by `claimant`, in insertion order,
    /// dereferenced through the canonical records.
    pub fn list_items_by_claimant(&self, claimant: &String) -> (result: Vec<WorkItem>)
        requires
            self.wf(),
        ensures
            result@ == records_at(self.items(), ids_claimed_by(self.items(), claimant@)),
    {
        self.store.list_by_claimant(claimant)
    }
}

} // verus!
