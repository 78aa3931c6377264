use work_registry::actor::Role;
use work_registry::engine::Marketplace;
use work_registry::item::{ItemEdit, Status, WorkItem};

fn setup() -> Marketplace {
    let mut m = Marketplace::new();
    m.register_actor("p1.test".to_string(), Role::Poster, "".to_string()).unwrap();
    m.register_actor("p2.test".to_string(), Role::Poster, "".to_string()).unwrap();
    m.register_actor("c1.test".to_string(), Role::Claimant, "".to_string()).unwrap();
    m.register_actor("c2.test".to_string(), Role::Claimant, "".to_string()).unwrap();
    m
}

fn create(m: &mut Marketplace, poster: &str, title: &str, price: u128) -> u64 {
    m.create_item(
        poster.to_string(),
        title.to_string(),
        "desc".to_string(),
        "attrs".to_string(),
        price,
    )
    .unwrap()
    .id
}

fn same_item(a: &WorkItem, b: &WorkItem) -> bool {
    a.id == b.id && a.poster == b.poster && a.claimant == b.claimant && a.title == b.title
        && a.description == b.description && a.attributes == b.attributes && a.price == b.price
        && a.status == b.status
}

#[test]
fn listings_enumerate_in_insertion_order() {
    let mut m = setup();
    let a = create(&mut m, "p1.test", "a", 1);
    let b = create(&mut m, "p2.test", "b", 2);
    let c = create(&mut m, "p1.test", "c", 3);
    let all = m.list_all_items();
    assert_eq!(all.len(), 3);
    assert_eq!(all[0].id, a);
    assert_eq!(all[1].id, b);
    assert_eq!(all[2].id, c);
    let p1 = m.list_items_by_poster(&"p1.test".to_string());
    assert_eq!(p1.iter().map(|it| it.id).collect::<Vec<_>>(), vec![a, c]);
    let p2 = m.list_items_by_poster(&"p2.test".to_string());
    assert_eq!(p2.iter().map(|it| it.id).collect::<Vec<_>>(), vec![b]);
    let nobody = m.list_items_by_poster(&"p3.test".to_string());
    assert!(nobody.is_empty());
}

#[test]
fn claim_order_does_not_disturb_insertion_order() {
    let mut m = setup();
    let a = create(&mut m, "p1.test", "a", 1);
    let b = create(&mut m, "p1.test", "b", 2);
    let c = create(&mut m, "p1.test", "c", 3);
    // one claimant takes the items out of insertion order
    m.claim_item("c1.test".to_string(), c).unwrap();
    m.claim_item("c1.test".to_string(), a).unwrap();
    m.claim_item("c2.test".to_string(), b).unwrap();
    let c1 = m.list_items_by_claimant(&"c1.test".to_string());
    assert_eq!(c1.iter().map(|it| it.id).collect::<Vec<_>>(), vec![a, c]);
    let c2 = m.list_items_by_claimant(&"c2.test".to_string());
    assert_eq!(c2.iter().map(|it| it.id).collect::<Vec<_>>(), vec![b]);
}

#[test]
fn every_view_returns_the_canonical_record_after_an_update() {
    // the divergence the denormalized originals allowed: an edit must be
    // visible through get, list_all, the poster listing and — once
    // claimed — the claimant listing, with no stale copy anywhere.
    let mut m = setup();
    let decoy = create(&mut m, "p1.test", "decoy", 9);
    let id = create(&mut m, "p1.test", "job", 50);
    let edit = ItemEdit {
        title: Some("renamed".to_string()),
        description: Some("new desc".to_string()),
        attributes: None,
        price: Some(75),
    };
    m.edit_item("p1.test".to_string(), id, edit).unwrap();
    m.claim_item("c1.test".to_string(), id).unwrap();
    m.complete_item("c1.test".to_string(), id).unwrap();

    let canonical = m.get_item(id).unwrap();
    assert_eq!(canonical.title, "renamed");
    assert_eq!(canonical.price, 75);
    assert_eq!(canonical.status, Status::Completed);

    let all = m.list_all_items();
    assert!(same_item(&all[id as usize], &canonical));

    let by_poster = m.list_items_by_poster(&"p1.test".to_string());
    let found_p: Vec<&WorkItem> = by_poster.iter().filter(|it| it.id == id).collect();
    assert_eq!(found_p.len(), 1);
    assert!(same_item(found_p[0], &canonical));

    let by_claimant = m.list_items_by_claimant(&"c1.test".to_string());
    let found_c: Vec<&WorkItem> = by_claimant.iter().filter(|it| it.id == id).collect();
    assert_eq!(found_c.len(), 1);
    assert!(same_item(found_c[0], &canonical));

    // the untouched record stayed untouched
    let decoy_rec = m.get_item(decoy).unwrap();
    assert_eq!(decoy_rec.title, "decoy");
    assert_eq!(decoy_rec.price, 9);
}

#[test]
fn failed_calls_commit_nothing() {
    let mut m = setup();
    let id = create(&mut m, "p1.test", "job", 10);
    let before = m.list_all_items();
    // a batch of rejected calls
    let _ = m.claim_item("p1.test".to_string(), id);
    let _ = m.claim_item("stranger.test".to_string(), id);
    let _ = m.complete_item("c1.test".to_string(), id);
    let _ = m.settle_item("p1.test".to_string(), id, 10);
    let _ = m.edit_item(
        "c1.test".to_string(),
        id,
        ItemEdit { title: None, description: None, attributes: None, price: Some(1) },
    );
    let after = m.list_all_items();
    assert_eq!(before.len(), after.len());
    for (x, y) in before.iter().zip(after.iter()) {
        assert!(same_item(x, y));
    }
    assert_eq!(m.item_count(), 1);
}

#[test]
fn counts_track_the_stores() {
    let mut m = setup();
    assert_eq!(m.actor_count(), 4);
    assert_eq!(m.item_count(), 0);
    create(&mut m, "p1.test", "a", 1);
    create(&mut m, "p2.test", "b", 2);
    assert_eq!(m.item_count(), 2);
    m.register_actor("p3.test".to_string(), Role::Both, "".to_string()).unwrap();
    assert_eq!(m.actor_count(), 5);
}
