use vstd::prelude::*;

verus! {

/// The lifecycle state of a work item.
///
/// The legal moves are `Open -> Claimed -> Completed -> Settled`, plus
/// `Open -> Expired` and `Claimed -> Expired`; `Settled` and `Expired`
/// are terminal. [`transition_ok`] is the edge relation and every
/// mutating operation of the registry guarantees it.
#[derive(Clone, Copy, Debug, PartialEq, Eq, Structural)]
pub enum Status {
    Open,
    Claimed,
    Completed,
    Settled,
    Expired,
}

/// The canonical record of one unit of work. There is exactly one such
/// record per id; every listing dereferences it, so no copy can go stale.
#[derive(Debug, PartialEq)]
pub struct WorkItem {
    /// Engine-assigned id, equal to the record's position in insertion order.
    pub id: u64,
    /// Identity of the actor who created the item. Immutable.
    pub poster: String,
    /// Identity of the actor who claimed it; set exactly once, by the
    /// transition `Open -> Claimed`, and never cleared or reassigned.
    pub claimant: Option<String>,
    /// Short label; mutable by the poster while the item is `Open`.
    pub title: String,
    /// Longer text; mutable by the poster while the item is `Open`.
    pub description: String,
    /// Free-form requirements (skills, experience); mutable while `Open`.
    pub attributes: String,
    /// Amount owed on settlement; mutable by the poster while `Open`.
    pub price: u128,
    pub status: Status,
}

/// Internal coherence of one record: an open item has no claimant yet;
/// a claimed, completed or settled item has one; and a claimant is never
/// the item's own poster.
pub open spec fn item_valid(it: WorkItem) -> bool {
    &&& it.status is Open ==> it.claimant is None
    &&& (it.status is Claimed || it.status is Completed || it.status is Settled) ==> it.claimant
        is Some
    &&& (it.claimant matches Some(c) ==> c@ != it.poster@)
}

/// The reflexive edge relation of the five-state lifecycle graph.
pub open spec fn transition_ok(before: Status, after: Status) -> bool {
    ||| before == after
    ||| (before is Open && after is Claimed)
    ||| (before is Claimed && after is Completed)
    ||| (before is Completed && after is Settled)
    ||| (before is Open && after is Expired)
    ||| (before is Claimed && after is Expired)
}

/// The lifecycle only moves forward: terminal states are left for nothing
/// else, no state is ever re-entered, and no move skips a state. In
/// particular `Settled` is never left and `Completed` never falls back
/// to `Open`.
pub proof fn lemma_transitions_forward(before: Status, after: Status)
    requires
        transition_ok(before, after),
    ensures
        before is Settled ==> after is Settled,
        before is Expired ==> after is Expired,
        before is Completed ==> (after is Completed || after is Settled),
        before is Claimed ==> !(after is Open),
        !(before is Open && after is Completed),
        !(before is Open && after is Settled),
        !(before is Claimed && after is Settled),
        !(before is Expired && after is Open),
{
}

impl Clone for WorkItem {
    /// A cloned record is equal to the original, field for field.
    fn clone(&self) -> (res: Self)
        ensures
            res == *self,
    {
        WorkItem {
            id: self.id,
            poster: self.poster.clone(),
            claimant: (match &self.claimant {
                Some(c) => Some(c.clone()),
                None => None,
            }),
            title: self.title.clone(),
            description: self.description.clone(),
            attributes: self.attributes.clone(),
            price: self.price,
            status: self.status,
        }
    }
}

/// The fields of a work item that its poster may rewrite while the item
/// is `Open`. A field left as `None` keeps its current value.
#[derive(Debug, PartialEq)]
pub struct ItemEdit {
    pub title: Option<String>,
    pub description: Option<String>,
    pub attributes: Option<String>,
    pub price: Option<u128>,
}

/// The record that results from applying an edit: named fields are
/// replaced, everything else — id, poster, claimant, status — is kept.
pub open spec fn apply_edit(it: WorkItem, e: ItemEdit) -> WorkItem {
    WorkItem {
        title: (if e.title is Some {
            e.title->0
        } else {
            it.title
        }),
        description: (if e.description is Some {
            e.description->0
        } else {
            it.description
        }),
        attributes: (if e.attributes is Some {
            e.attributes->0
        } else {
            it.attributes
        }),
        price: (if e.price is Some {
            e.price->0
        } else {
            it.price
        }),
        ..it
    }
}

/// The single authoritative record of a value transfer owed after
/// settlement. The engine issues at most one receipt per item; the host
/// environment is expected to perform the transfer it describes.
#[derive(Debug, PartialEq)]
pub struct TransferReceipt {
    /// The settled item.
    pub item_id: u64,
    /// The claimant the amount is owed to.
    pub recipient: String,
    /// Exactly the item's price at the time of settlement.
    pub amount: u128,
}

} // verus!
