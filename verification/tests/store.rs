use work_registry::errors::Error;
use work_registry::item::{Status, WorkItem};
use work_registry::store::WorkItemStore;

fn open_item(id: u64, poster: &str, title: &str, price: u128) -> WorkItem {
    WorkItem {
        id,
        poster: poster.to_string(),
        claimant: None,
        title: title.to_string(),
        description: "desc".to_string(),
        attributes: "".to_string(),
        price,
        status: Status::Open,
    }
}

#[test]
fn insert_rejects_any_id_but_the_next_fresh_one() {
    let mut s = WorkItemStore::new();
    assert_eq!(s.next_id(), 0);
    // a stale or forged id never lands in the store
    assert_eq!(s.insert(open_item(3, "p.test", "a", 1)), Err(Error::DuplicateId));
    assert_eq!(s.len(), 0);
    s.insert(open_item(0, "p.test", "a", 1)).unwrap();
    // the same id twice is the duplicate the error is named for
    assert_eq!(s.insert(open_item(0, "p.test", "b", 2)), Err(Error::DuplicateId));
    assert_eq!(s.len(), 1);
    assert_eq!(s.next_id(), 1);
    s.insert(open_item(1, "q.test", "b", 2)).unwrap();
    assert_eq!(s.len(), 2);
}

#[test]
fn get_returns_the_stored_record_or_not_found() {
    let mut s = WorkItemStore::new();
    assert_eq!(s.get(0).unwrap_err(), Error::NotFound);
    s.insert(open_item(0, "p.test", "first", 5)).unwrap();
    let got = s.get(0).unwrap();
    assert_eq!(got.id, 0);
    assert_eq!(got.title, "first");
    assert_eq!(got.price, 5);
    assert_eq!(got.status, Status::Open);
    assert_eq!(s.get(1).unwrap_err(), Error::NotFound);
}

#[test]
fn store_listings_index_by_poster() {
    let mut s = WorkItemStore::new();
    s.insert(open_item(0, "p.test", "a", 1)).unwrap();
    s.insert(open_item(1, "q.test", "b", 2)).unwrap();
    s.insert(open_item(2, "p.test", "c", 3)).unwrap();
    let all = s.list_all();
    assert_eq!(all.len(), 3);
    assert_eq!(all[1].poster, "q.test");
    let p = s.list_by_poster(&"p.test".to_string());
    assert_eq!(p.iter().map(|it| it.id).collect::<Vec<_>>(), vec![0, 2]);
    let q = s.list_by_poster(&"q.test".to_string());
    assert_eq!(q.iter().map(|it| it.id).collect::<Vec<_>>(), vec![1]);
    assert!(s.list_by_poster(&"r.test".to_string()).is_empty());
    // nothing is claimed yet, so no claimant listing has entries
    assert!(s.list_by_claimant(&"p.test".to_string()).is_empty());
}

#[test]
fn cloned_records_are_field_identical() {
    let original = open_item(7, "p.test", "title", 11);
    let copy = original.clone();
    assert_eq!(copy, original);
}
