use vstd::prelude::*;

use crate::actor::{role_granted, Actor, Role};
use crate::errors::Error;
use crate::item::{Status, WorkItem};

verus! {

/// The record after a claim: claimant set — exactly once, the record
/// had none — and status moved `Open -> Claimed`.
pub open spec fn claimed_item(it: WorkItem, claimant: String) -> WorkItem {
    WorkItem { status: Status::Claimed, claimant: Some(claimant), ..it }
}

/// The record after completion: status moved `Claimed -> Completed`.
pub open spec fn completed_item(it: WorkItem) -> WorkItem {
    WorkItem { status: Status::Completed, ..it }
}

/// The record after settlement: status moved `Completed -> Settled`.
pub open spec fn settled_item(it: WorkItem) -> WorkItem {
    WorkItem { status: Status::Settled, ..it }
}

/// The record after expiry: status moved to the terminal `Expired`.
pub open spec fn expired_item(it: WorkItem) -> WorkItem {
    WorkItem { status: Status::Expired, ..it }
}

/// Why a create by `poster` fails, or `None` when it must succeed:
/// creating requires a directory entry granting the poster capability.
pub open spec fn create_check(actors: Seq<Actor>, poster: Seq<char>) -> Option<Error> {
    if !role_granted(actors, poster, Role::Poster) {
        Some(Error::UnauthorizedRole)
    } else {
        None
    }
}

/// Why a claim of `id` by `caller` fails, or `None` when it must
/// succeed. The checks run in this order: the id must exist, a poster
/// may never claim their own item, the caller needs the claimant
/// capability, and only an `Open` item can be claimed.
pub open spec fn claim_check(
    actors: Seq<Actor>,
    items: Seq<WorkItem>,
    caller: Seq<char>,
    id: u64,
) -> Option<Error> {
    if id >= items.len() {
        Some(Error::NotFound)
    } else if items[id as int].poster@ == caller {
        Some(Error::SelfClaimForbidden)
    } else if !role_granted(actors, caller, Role::Claimant) {
        Some(Error::UnauthorizedRole)
    } else if !(items[id as int].status is Open) {
        Some(Error::AlreadyClaimed)
    } else {
        None
    }
}

/// Why a completion of `id` by `caller` fails, or `None` when it must
/// succeed: the id must exist, only a `Claimed` item can be completed,
/// and only by its claimant.
pub open spec fn complete_check(items: Seq<WorkItem>, caller: Seq<char>, id: u64) -> Option<
    Error,
> {
    if id >= items.len() {
        Some(Error::NotFound)
    } else if !(items[id as int].status is Claimed) {
        Some(Error::WrongState)
    } else if !(items[id as int].claimant matches Some(c) && c@ == caller) {
        Some(Error::Unauthorized)
    } else {
        None
    }
}

/// Why an edit of `id` by `caller` fails, or `None` when it must
/// succeed: the id must exist, only the poster may edit, and only while
/// the item is `Open`.
pub open spec fn edit_check(items: Seq<WorkItem>, caller: Seq<char>, id: u64) -> Option<Error> {
    if id >= items.len() {
        Some(Error::NotFound)
    } else if items[id as int].poster@ != caller {
        Some(Error::Unauthorized)
    } else if !(items[id as int].status is Open) {
        Some(Error::WrongState)
    } else {
        None
    }
}

/// Why an expiry of `id` fails, or `None` when it must succeed: the id
/// must exist and only an `Open` or `Claimed` item can expire. The call
/// is driven by an external clock reading; no payout obligation arises.
pub open spec fn expire_check(items: Seq<WorkItem>, id: u64) -> Option<Error> {
    if id >= items.len() {
        Some(Error::NotFound)
    } else if !(items[id as int].status is Open || items[id as int].status is Claimed) {
        Some(Error::WrongState)
    } else {
        None
    }
}

/// Why a settlement of `id` by `caller` offering `offered` fails, or
/// `None` when it must succeed. The checks run in this order: the id
/// must exist; a settled item reports `AlreadySettled` — never a second
/// transfer — whoever calls; anything not `Completed` is not payable;
/// only the poster releases the funds; and the offered amount must
/// equal the price exactly, no partial or over-payment.
pub open spec fn settle_check(
    items: Seq<WorkItem>,
    caller: Seq<char>,
    id: u64,
    offered: u128,
) -> Option<Error> {
    if id >= items.len() {
        Some(Error::NotFound)
    } else if items[id as int].status is Settled {
        Some(Error::AlreadySettled)
    } else if !(items[id as int].status is Completed) {
        Some(Error::NotPayable)
    } else if items[id as int].poster@ != caller {
        Some(Error::Unauthorized)
    } else if offered != items[id as int].price {
        Some(Error::AmountMismatch)
    } else {
        None
    }
}

} // verus!
