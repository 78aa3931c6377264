use work_registry::actor::Role;
use work_registry::engine::Marketplace;
use work_registry::errors::Error;
use work_registry::item::{ItemEdit, Status, WorkItem};

fn setup() -> Marketplace {
    let mut m = Marketplace::new();
    m.register_actor("poster.test".to_string(), Role::Poster, "client profile".to_string())
        .unwrap();
    m.register_actor("worker.test".to_string(), Role::Claimant, "worker profile".to_string())
        .unwrap();
    m
}

fn no_edit() -> ItemEdit {
    ItemEdit { title: None, description: None, attributes: None, price: None }
}

fn same_item(a: &WorkItem, b: &WorkItem) -> bool {
    a.id == b.id && a.poster == b.poster && a.claimant == b.claimant && a.title == b.title
        && a.description == b.description && a.attributes == b.attributes && a.price == b.price
        && a.status == b.status
}

#[test]
fn created_item_is_open_with_claimant_unset() {
    let mut m = setup();
    let it = m
        .create_item(
            "poster.test".to_string(),
            "title".to_string(),
            "desc".to_string(),
            "skills".to_string(),
            100,
        )
        .unwrap();
    assert_eq!(it.id, 0);
    assert_eq!(it.status, Status::Open);
    assert!(it.claimant.is_none());
    let got = m.get_item(0).unwrap();
    assert_eq!(got.status, Status::Open);
    assert!(got.claimant.is_none());
    assert!(same_item(&it, &got));
}

#[test]
fn full_settlement_scenario() {
    // poster P creates at price 100; C claims; C completes; P settles 100;
    // a second settle of any amount fails AlreadySettled.
    let mut m = setup();
    let it = m
        .create_item(
            "poster.test".to_string(),
            "job".to_string(),
            "desc".to_string(),
            "".to_string(),
            100,
        )
        .unwrap();
    let id = it.id;
    m.claim_item("worker.test".to_string(), id).unwrap();
    let claimed = m.get_item(id).unwrap();
    assert_eq!(claimed.status, Status::Claimed);
    assert_eq!(claimed.claimant.as_deref(), Some("worker.test"));
    m.complete_item("worker.test".to_string(), id).unwrap();
    assert_eq!(m.get_item(id).unwrap().status, Status::Completed);
    let receipt = m.settle_item("poster.test".to_string(), id, 100).unwrap();
    assert_eq!(receipt.item_id, id);
    assert_eq!(receipt.amount, 100);
    assert_eq!(receipt.recipient, "worker.test");
    assert_eq!(m.get_item(id).unwrap().status, Status::Settled);
    assert_eq!(
        m.settle_item("poster.test".to_string(), id, 100),
        Err(Error::AlreadySettled)
    );
    assert_eq!(
        m.settle_item("poster.test".to_string(), id, 7),
        Err(Error::AlreadySettled)
    );
}

#[test]
fn self_claim_is_forbidden_and_state_unchanged() {
    let mut m = setup();
    // give the poster the claimant capability too: still forbidden on own item
    m.register_actor("poster.test".to_string(), Role::Claimant, "also works".to_string())
        .unwrap();
    let it = m
        .create_item(
            "poster.test".to_string(),
            "job".to_string(),
            "d".to_string(),
            "".to_string(),
            10,
        )
        .unwrap();
    assert_eq!(
        m.claim_item("poster.test".to_string(), it.id),
        Err(Error::SelfClaimForbidden)
    );
    let after = m.get_item(it.id).unwrap();
    assert_eq!(after.status, Status::Open);
    assert!(after.claimant.is_none());
}

#[test]
fn edit_while_open_then_rejected_after_claim() {
    // price 50 edited to 75 while Open; after the claim an edit fails
    // WrongState and the price stays 75.
    let mut m = setup();
    let it = m
        .create_item(
            "poster.test".to_string(),
            "job".to_string(),
            "d".to_string(),
            "".to_string(),
            50,
        )
        .unwrap();
    let edit = ItemEdit { title: None, description: None, attributes: None, price: Some(75) };
    m.edit_item("poster.test".to_string(), it.id, edit).unwrap();
    assert_eq!(m.get_item(it.id).unwrap().price, 75);
    m.claim_item("worker.test".to_string(), it.id).unwrap();
    let edit2 = ItemEdit { title: None, description: None, attributes: None, price: Some(99) };
    assert_eq!(
        m.edit_item("poster.test".to_string(), it.id, edit2),
        Err(Error::WrongState)
    );
    assert_eq!(m.get_item(it.id).unwrap().price, 75);
}

#[test]
fn settle_before_completion_is_not_payable() {
    let mut m = setup();
    let it = m
        .create_item(
            "poster.test".to_string(),
            "job".to_string(),
            "d".to_string(),
            "".to_string(),
            40,
        )
        .unwrap();
    m.claim_item("worker.test".to_string(), it.id).unwrap();
    assert_eq!(
        m.settle_item("poster.test".to_string(), it.id, 40),
        Err(Error::NotPayable)
    );
    assert_eq!(m.get_item(it.id).unwrap().status, Status::Claimed);
}

#[test]
fn settle_demands_the_exact_amount() {
    let mut m = setup();
    let it = m
        .create_item(
            "poster.test".to_string(),
            "job".to_string(),
            "d".to_string(),
            "".to_string(),
            100,
        )
        .unwrap();
    m.claim_item("worker.test".to_string(), it.id).unwrap();
    m.complete_item("worker.test".to_string(), it.id).unwrap();
    assert_eq!(
        m.settle_item("poster.test".to_string(), it.id, 99),
        Err(Error::AmountMismatch)
    );
    assert_eq!(
        m.settle_item("poster.test".to_string(), it.id, 101),
        Err(Error::AmountMismatch)
    );
    assert_eq!(m.get_item(it.id).unwrap().status, Status::Completed);
}

#[test]
fn settlement_is_triggered_by_the_poster_only() {
    let mut m = setup();
    let it = m
        .create_item(
            "poster.test".to_string(),
            "job".to_string(),
            "d".to_string(),
            "".to_string(),
            100,
        )
        .unwrap();
    m.claim_item("worker.test".to_string(), it.id).unwrap();
    m.complete_item("worker.test".to_string(), it.id).unwrap();
    assert_eq!(
        m.settle_item("worker.test".to_string(), it.id, 100),
        Err(Error::Unauthorized)
    );
}

#[test]
fn completion_is_for_the_claimant_only() {
    let mut m = setup();
    let it = m
        .create_item(
            "poster.test".to_string(),
            "job".to_string(),
            "d".to_string(),
            "".to_string(),
            100,
        )
        .unwrap();
    m.claim_item("worker.test".to_string(), it.id).unwrap();
    assert_eq!(
        m.complete_item("poster.test".to_string(), it.id),
        Err(Error::Unauthorized)
    );
    assert_eq!(m.get_item(it.id).unwrap().status, Status::Claimed);
}

#[test]
fn transitions_never_skip_or_reverse() {
    let mut m = setup();
    let it = m
        .create_item(
            "poster.test".to_string(),
            "job".to_string(),
            "d".to_string(),
            "".to_string(),
            100,
        )
        .unwrap();
    // complete from Open skips Claimed: rejected
    assert_eq!(
        m.complete_item("worker.test".to_string(), it.id),
        Err(Error::WrongState)
    );
    m.claim_item("worker.test".to_string(), it.id).unwrap();
    // a second claim is rejected
    assert_eq!(
        m.claim_item("worker.test".to_string(), it.id),
        Err(Error::AlreadyClaimed)
    );
    m.complete_item("worker.test".to_string(), it.id).unwrap();
    // expire after completion is rejected: only Open or Claimed expire
    assert_eq!(m.expire_item(it.id), Err(Error::WrongState));
    m.settle_item("poster.test".to_string(), it.id, 100).unwrap();
    // nothing leaves Settled
    assert_eq!(m.expire_item(it.id), Err(Error::WrongState));
    assert_eq!(
        m.claim_item("worker.test".to_string(), it.id),
        Err(Error::AlreadyClaimed)
    );
    assert_eq!(
        m.edit_item("poster.test".to_string(), it.id, no_edit()),
        Err(Error::WrongState)
    );
    assert_eq!(m.get_item(it.id).unwrap().status, Status::Settled);
}

#[test]
fn expiry_from_open_and_from_claimed() {
    let mut m = setup();
    let a = m
        .create_item(
            "poster.test".to_string(),
            "a".to_string(),
            "d".to_string(),
            "".to_string(),
            1,
        )
        .unwrap();
    let b = m
        .create_item(
            "poster.test".to_string(),
            "b".to_string(),
            "d".to_string(),
            "".to_string(),
            2,
        )
        .unwrap();
    m.expire_item(a.id).unwrap();
    assert_eq!(m.get_item(a.id).unwrap().status, Status::Expired);
    m.claim_item("worker.test".to_string(), b.id).unwrap();
    m.expire_item(b.id).unwrap();
    let expired = m.get_item(b.id).unwrap();
    assert_eq!(expired.status, Status::Expired);
    // the claimant is kept for audit, and no payout can arise
    assert_eq!(expired.claimant.as_deref(), Some("worker.test"));
    assert_eq!(
        m.settle_item("poster.test".to_string(), b.id, 2),
        Err(Error::NotPayable)
    );
    // an expired item cannot be claimed again
    assert_eq!(
        m.claim_item("worker.test".to_string(), a.id),
        Err(Error::AlreadyClaimed)
    );
}

#[test]
fn unknown_ids_are_not_found() {
    let mut m = setup();
    assert_eq!(m.get_item(0).unwrap_err(), Error::NotFound);
    assert_eq!(
        m.claim_item("worker.test".to_string(), 5),
        Err(Error::NotFound)
    );
    assert_eq!(
        m.complete_item("worker.test".to_string(), 5),
        Err(Error::NotFound)
    );
    assert_eq!(
        m.edit_item("poster.test".to_string(), 5, no_edit()),
        Err(Error::NotFound)
    );
    assert_eq!(m.expire_item(5), Err(Error::NotFound));
    assert_eq!(
        m.settle_item("poster.test".to_string(), 5, 1),
        Err(Error::NotFound)
    );
}

#[test]
fn creating_and_claiming_demand_the_role() {
    let mut m = setup();
    // an unregistered identity cannot post
    assert_eq!(
        m.create_item(
            "stranger.test".to_string(),
            "t".to_string(),
            "d".to_string(),
            "".to_string(),
            1,
        )
        .unwrap_err(),
        Error::UnauthorizedRole
    );
    // a claimant-only identity cannot post either
    assert_eq!(
        m.create_item(
            "worker.test".to_string(),
            "t".to_string(),
            "d".to_string(),
            "".to_string(),
            1,
        )
        .unwrap_err(),
        Error::UnauthorizedRole
    );
    let it = m
        .create_item(
            "poster.test".to_string(),
            "t".to_string(),
            "d".to_string(),
            "".to_string(),
            1,
        )
        .unwrap();
    // a poster-only identity cannot claim
    let mut m2 = Marketplace::new();
    m2.register_actor("a.test".to_string(), Role::Poster, "p".to_string()).unwrap();
    m2.register_actor("b.test".to_string(), Role::Poster, "p".to_string()).unwrap();
    let it2 = m2
        .create_item(
            "a.test".to_string(),
            "t".to_string(),
            "d".to_string(),
            "".to_string(),
            1,
        )
        .unwrap();
    assert_eq!(
        m2.claim_item("b.test".to_string(), it2.id),
        Err(Error::UnauthorizedRole)
    );
    // an unregistered identity cannot claim
    assert_eq!(
        m.claim_item("stranger.test".to_string(), it.id),
        Err(Error::UnauthorizedRole)
    );
}

#[test]
fn edit_is_for_the_poster_only_and_replaces_named_fields() {
    let mut m = setup();
    let it = m
        .create_item(
            "poster.test".to_string(),
            "old title".to_string(),
            "old desc".to_string(),
            "old attrs".to_string(),
            5,
        )
        .unwrap();
    assert_eq!(
        m.edit_item("worker.test".to_string(), it.id, no_edit()),
        Err(Error::Unauthorized)
    );
    let edit = ItemEdit {
        title: Some("new title".to_string()),
        description: None,
        attributes: Some("new attrs".to_string()),
        price: None,
    };
    m.edit_item("poster.test".to_string(), it.id, edit).unwrap();
    let got = m.get_item(it.id).unwrap();
    assert_eq!(got.title, "new title");
    assert_eq!(got.description, "old desc");
    assert_eq!(got.attributes, "new attrs");
    assert_eq!(got.price, 5);
    assert_eq!(got.status, Status::Open);
    assert_eq!(got.poster, "poster.test");
}
