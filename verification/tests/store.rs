use shopping::commands::RepoRequest;
use shopping::item::{CreateItem, UpdateItem};
use shopping::price::Price;
use shopping::store::{
    generate_salt, hash_password, new_meta, verify_meta, FileBackedStore, MetaDecision,
    StoreError, UserMeta,
};

#[test]
fn hash_password_is_hex_sha256_of_joined_text() {
    assert_eq!(
        hash_password("alice", "pw", "salt"),
        "5b9be2313f54eaa4e8307e604b3c78331a4bc7b60b1c6036fbb32a174899a4a1"
    );
    assert_eq!(
        hash_password("bob", "pässword", "00ff"),
        "e9d1438d34155cfb8c320194c040501d39561186139c5b05df15c42654eed15a"
    );
}

#[test]
fn salts_are_32_hex_digits() {
    let a = generate_salt();
    let b = generate_salt();
    assert_eq!(a.len(), 32);
    assert!(a.chars().all(|c| c.is_ascii_hexdigit() && !c.is_ascii_uppercase()));
    assert_ne!(a, b);
}

#[test]
fn meta_accepts_its_own_password() {
    let meta = new_meta("bob", "correct", "abcd".to_string());
    assert_eq!(meta.salt, "abcd");
    assert_eq!(meta.password_hash, hash_password("bob", "correct", "abcd"));
    assert!(verify_meta("bob", "correct", meta).is_ok());
}

#[test]
fn rejects_wrong_password() {
    let meta = new_meta("bob", "correct", "abcd".to_string());
    let err = verify_meta("bob", "wrong", meta).unwrap_err();
    assert_eq!(err, StoreError::InvalidCredentials);
    assert!(err.message().contains("Invalid username or password"));
}

#[test]
fn load_or_create_meta_decisions() {
    let store = FileBackedStore::new("/tmp/lists");
    match store.load_or_create_meta("carol", "pw", None) {
        Ok(MetaDecision::Created(m)) => {
            assert_eq!(m.salt.len(), 32);
            assert_eq!(m.password_hash, hash_password("carol", "pw", &m.salt));
            let again = store
                .load_or_create_meta("carol", "pw", Some(UserMeta { salt: m.salt.clone(), password_hash: m.password_hash.clone() }))
                .unwrap();
            assert!(matches!(again, MetaDecision::Existing(_)));
            let refused = store.load_or_create_meta("carol", "nope", Some(m));
            assert!(matches!(refused, Err(StoreError::InvalidCredentials)));
        }
        _ => panic!("expected new metadata"),
    }
}

#[test]
fn file_paths() {
    let store = FileBackedStore::new("/tmp/lists");
    assert_eq!(store.meta_file("alice"), "/tmp/lists/alice.meta.json");
    assert_eq!(store.user_file("alice", "ab12"), "/tmp/lists/alice__ab12.json");
}

#[test]
fn change_list_decisions() {
    let store = FileBackedStore::new("/tmp/lists");
    let req = RepoRequest::Add(CreateItem::new("Milk", Price::new(120, 2), 1));
    let items = store.change_list(None, req).unwrap();
    assert_eq!(items.len(), 1);
    assert_eq!(items[0].id, 1);
    assert!(store.change_list(None, RepoRequest::Remove { item_id: 1, quantity: 1 }).is_none());
    let upd = RepoRequest::Update { item_id: 1, update: UpdateItem::PickedUp { picked_up: true } };
    assert!(store.change_list(None, RepoRequest::Update { item_id: 1, update: UpdateItem::PickedUp { picked_up: true } }).is_none());
    let updated = store.change_list(Some(items), upd).unwrap();
    assert!(updated[0].picked_up);
    let removed = store.change_list(Some(updated), RepoRequest::Remove { item_id: 1, quantity: 1 }).unwrap();
    assert!(removed.is_empty());
}

#[test]
fn creates_metadata_on_first_use() {
    let dir = "/tmp/shopping-lists";
    let store = FileBackedStore::new(dir);
    let path = store.meta_file("alice");
    assert_eq!(std::path::Path::new(&path), std::path::Path::new(dir).join("alice.meta.json"));
    match store.load_or_create_meta("alice", "secret", None) {
        Ok(MetaDecision::Created(m)) => {
            assert!(verify_meta("alice", "secret", m).is_ok());
        }
        _ => panic!("expected new metadata"),
    }
    let items = store.change_list(None, RepoRequest::Remove { item_id: 1, quantity: 1 });
    assert!(items.is_none());
}
