use work_registry::actor::{ActorDirectory, Role};
use work_registry::engine::Marketplace;
use work_registry::errors::Error;
use work_registry::StorageKey;

#[test]
fn registration_is_once_per_capability() {
    let mut m = Marketplace::new();
    let a = m
        .register_actor("alice.test".to_string(), Role::Poster, "profile".to_string())
        .unwrap();
    assert_eq!(a.identity, "alice.test");
    assert_eq!(a.role, Role::Poster);
    assert_eq!(a.profile, "profile");
    // the same capability again is rejected
    assert_eq!(
        m.register_actor("alice.test".to_string(), Role::Poster, "again".to_string()),
        Err(Error::AlreadyRegistered)
    );
    // Both covers Poster, so it overlaps too
    assert_eq!(
        m.register_actor("alice.test".to_string(), Role::Both, "again".to_string()),
        Err(Error::AlreadyRegistered)
    );
    // the other capability is a separate entry
    m.register_actor("alice.test".to_string(), Role::Claimant, "worker side".to_string())
        .unwrap();
    assert_eq!(m.actor_count(), 2);
    // now every further registration of alice overlaps
    assert_eq!(
        m.register_actor("alice.test".to_string(), Role::Claimant, "x".to_string()),
        Err(Error::AlreadyRegistered)
    );
}

#[test]
fn an_actor_registered_with_both_can_post_and_claim() {
    let mut m = Marketplace::new();
    m.register_actor("dual.test".to_string(), Role::Both, "".to_string()).unwrap();
    m.register_actor("other.test".to_string(), Role::Both, "".to_string()).unwrap();
    // Both grants posting
    let it = m
        .create_item(
            "dual.test".to_string(),
            "t".to_string(),
            "d".to_string(),
            "".to_string(),
            1,
        )
        .unwrap();
    // and Both grants claiming someone else's item
    m.claim_item("other.test".to_string(), it.id).unwrap();
    // a Both registration overlaps any further one
    assert_eq!(
        m.register_actor("dual.test".to_string(), Role::Claimant, "".to_string()),
        Err(Error::AlreadyRegistered)
    );
}

#[test]
fn lookup_returns_the_first_entry_and_list_returns_all() {
    let mut m = Marketplace::new();
    m.register_actor("a.test".to_string(), Role::Poster, "first".to_string()).unwrap();
    m.register_actor("b.test".to_string(), Role::Claimant, "second".to_string()).unwrap();
    m.register_actor("a.test".to_string(), Role::Claimant, "third".to_string()).unwrap();
    let found = m.lookup_actor(&"a.test".to_string()).unwrap();
    assert_eq!(found.role, Role::Poster);
    assert_eq!(found.profile, "first");
    assert_eq!(
        m.lookup_actor(&"missing.test".to_string()),
        Err(Error::NotFound)
    );
    let all = m.list_actors();
    assert_eq!(all.len(), 3);
    assert_eq!(all[0].identity, "a.test");
    assert_eq!(all[1].identity, "b.test");
    assert_eq!(all[2].identity, "a.test");
    assert_eq!(all[2].role, Role::Claimant);
}

#[test]
fn the_directory_stands_alone_too() {
    let mut d = ActorDirectory::new();
    assert_eq!(d.len(), 0);
    d.register("x.test".to_string(), Role::Claimant, "cv".to_string()).unwrap();
    assert_eq!(d.len(), 1);
    assert_eq!(
        d.register("x.test".to_string(), Role::Both, "cv".to_string()),
        Err(Error::AlreadyRegistered)
    );
    let e = d.lookup(&"x.test".to_string()).unwrap();
    assert_eq!(e.profile, "cv");
    assert_eq!(d.list().len(), 1);
}

#[test]
fn storage_namespaces_have_distinct_prefixes() {
    let keys = [
        StorageKey::Actors,
        StorageKey::Items,
        StorageKey::PosterIndex,
        StorageKey::ClaimantIndex,
    ];
    for (i, a) in keys.iter().enumerate() {
        for (j, b) in keys.iter().enumerate() {
            assert_eq!(i == j, a.prefix() == b.prefix());
        }
    }
}
