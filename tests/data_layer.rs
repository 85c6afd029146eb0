use fastly_dev_server::generation::Generation;
use fastly_dev_server::materialize::{Snapshot, SnapshotStore, BASELINE_GENERATION};
use fastly_dev_server::model::{Error, ErrorKind, ItemRecord, StoreKind, StoreMetadata};
use fastly_dev_server::secrets::SecretInfo;
use fastly_dev_server::store::DataStore;

fn s(text: &str) -> String {
    text.to_string()
}

fn kinds() -> Vec<StoreKind> {
    vec![StoreKind::Config, StoreKind::Kv, StoreKind::Secret]
}

fn entry_named<'a>(stores: &'a [SnapshotStore], name: &str) -> Vec<&'a SnapshotStore> {
    stores.iter().filter(|st| st.name == name).collect()
}

#[test]
fn create_then_get_returns_the_name() {
    for kind in kinds() {
        let mut db = DataStore::new();
        let first = db.create_store(kind, s("alpha")).unwrap();
        let second = db.create_store(kind, s("alpha")).unwrap();
        assert_eq!(first.id.len(), 26);
        assert!(first.created_at > 1_600_000_000_000);
        assert_ne!(first.id, second.id);
        let got = db.get_store(kind, &first.id).ok().unwrap();
        assert_eq!(got.name, "alpha");
        assert_eq!(got.id, first.id);
        assert_eq!(got.created_at, first.created_at);
        if kind == StoreKind::Secret {
            assert_eq!(got.updated_at, None);
        } else {
            assert_eq!(got.updated_at, Some(first.created_at));
        }
    }
}

#[test]
fn create_with_given_id_and_time() {
    let mut db = DataStore::new();
    let d = db.create_store_with(StoreKind::Kv, s("kv1"), s("01ABC"), 1000).unwrap();
    assert_eq!(d.id, "01ABC");
    assert_eq!(d.created_at, 1000);
    assert_eq!(d.updated_at, Some(1000));
    let listed = db.list_stores(StoreKind::Kv);
    assert_eq!(listed.len(), 1);
    assert_eq!(listed[0].name, "kv1");
    assert!(db.list_stores(StoreKind::Config).is_empty());
}

#[test]
fn list_without_metadata_is_empty() {
    let db = DataStore::new();
    for kind in kinds() {
        assert!(db.list_stores(kind).is_empty());
        let err = db.get_store(kind, &s("nope")).err().unwrap();
        assert_eq!(err.kind, ErrorKind::NotFound);
    }
}

#[test]
fn delete_store_removes_descriptor_and_items() {
    let mut db = DataStore::new();
    let d = db.create_store(StoreKind::Kv, s("kv")).unwrap();
    db.upsert_item(StoreKind::Kv, &d.id, s("a"), b"1".to_vec()).unwrap();
    assert_eq!(db.list_items(StoreKind::Kv, &d.id).len(), 1);
    assert!(db.delete_store(StoreKind::Kv, &d.id).is_ok());
    assert_eq!(db.get_store(StoreKind::Kv, &d.id).err().unwrap().kind, ErrorKind::NotFound);
    assert!(db.list_items(StoreKind::Kv, &d.id).is_empty());
    assert_eq!(db.get_item(StoreKind::Kv, &d.id, &s("a")).err().unwrap().kind, ErrorKind::NotFound);
}

#[test]
fn delete_missing_store_is_not_found_and_changes_nothing() {
    let mut db = DataStore::new();
    assert_eq!(db.delete_store(StoreKind::Config, &s("x")).err().unwrap().kind, ErrorKind::NotFound);
    let d = db.create_store(StoreKind::Config, s("c")).unwrap();
    db.upsert_item(StoreKind::Config, &d.id, s("k"), b"v".to_vec()).unwrap();
    assert_eq!(db.delete_store(StoreKind::Kv, &d.id).err().unwrap().kind, ErrorKind::NotFound);
    assert_eq!(db.list_stores(StoreKind::Config).len(), 1);
    assert_eq!(db.list_items(StoreKind::Config, &d.id).len(), 1);
}

#[test]
fn absent_table_lists_empty_but_get_is_not_found() {
    let mut db = DataStore::new();
    let d = db.create_store(StoreKind::Config, s("cfg")).unwrap();
    assert!(db.list_items(StoreKind::Config, &d.id).is_empty());
    let err = db.get_item(StoreKind::Config, &d.id, &s("key")).err().unwrap();
    assert_eq!(err.kind, ErrorKind::NotFound);
    assert!(db.list_items(StoreKind::Config, &s("no-such-store")).is_empty());
    assert!(db.list_secrets(&s("no-such-store")).is_empty());
}

#[test]
fn many_creates_keep_every_store() {
    let mut db = DataStore::new();
    let mut ids: Vec<String> = Vec::new();
    for i in 0..20 {
        let d = db.create_store(StoreKind::Secret, format!("name{}", i % 3)).unwrap();
        ids.push(d.id);
    }
    let listed = db.list_stores(StoreKind::Secret);
    assert_eq!(listed.len(), 20);
    for id in &ids {
        assert_eq!(listed.iter().filter(|d| &d.id == id).count(), 1);
    }
}

#[test]
fn secret_conflict_then_replace() {
    let mut db = DataStore::new();
    let store = db.create_store(StoreKind::Secret, s("secrets")).unwrap();
    let first = db.create_secret(&store.id, s("k"), b"v1".to_vec()).ok().unwrap();
    assert_eq!(first.value, b"v1".to_vec());
    let err = db.create_secret(&store.id, s("k"), b"v2".to_vec()).err().unwrap();
    assert_eq!(err.kind, ErrorKind::Conflict);
    assert_eq!(err.status_code(), 409);
    let kept = db.get_item(StoreKind::Secret, &store.id, &s("k")).ok().unwrap();
    assert_eq!(kept.value, b"v1".to_vec());
    let replaced = db.replace_secret(&store.id, s("k"), b"v2".to_vec());
    assert_eq!(replaced.value, b"v2".to_vec());
    assert_eq!(replaced.created_at, replaced.updated_at);
    let shown = db.get_secret(&store.id, &s("k")).ok().unwrap();
    assert_eq!(shown.name, "k");
    assert_eq!(shown.digest.len(), 32);
    assert_eq!(shown.digest[..4].to_vec(), vec![251u8, 4, 220, 182]);
}

#[test]
fn secret_digest_is_sha256_of_the_value() {
    let item = ItemRecord { value: b"v1".to_vec(), created_at: 5, updated_at: 5 };
    let info = SecretInfo::of(&s("name"), &item);
    assert_eq!(info.digest.len(), 32);
    assert_eq!(info.digest[..4].to_vec(), vec![59u8, 252, 38, 149]);
    assert_ne!(info.digest, item.value);
    assert_eq!(info.created_at, 5);
}

#[test]
fn list_secrets_shows_digests() {
    let mut db = DataStore::new();
    db.create_secret_at(&s("st"), s("a"), b"v1".to_vec(), 10).ok().unwrap();
    db.create_secret_at(&s("st"), s("b"), b"v2".to_vec(), 20).ok().unwrap();
    let listed = db.list_secrets(&s("st"));
    assert_eq!(listed.len(), 2);
    let a = listed.iter().find(|i| i.name == "a").unwrap();
    assert_eq!(a.digest[..4].to_vec(), vec![59u8, 252, 38, 149]);
    assert_eq!(a.created_at, 10);
}

#[test]
fn missing_secret_is_not_found() {
    let mut db = DataStore::new();
    assert_eq!(db.get_secret(&s("st"), &s("x")).err().unwrap().kind, ErrorKind::NotFound);
    assert_eq!(db.delete_item(StoreKind::Secret, &s("st"), &s("x")).err().unwrap().kind, ErrorKind::NotFound);
}

#[test]
fn overwrite_keeps_creation_time() {
    let mut db = DataStore::new();
    let first = db.write_item_at(StoreKind::Config, &s("c"), s("k"), b"one".to_vec(), 100).unwrap();
    assert_eq!((first.created_at, first.updated_at), (100, 100));
    let second = db.write_item_at(StoreKind::Config, &s("c"), s("k"), b"two".to_vec(), 200).unwrap();
    assert_eq!((second.created_at, second.updated_at), (100, 200));
    let got = db.get_item(StoreKind::Config, &s("c"), &s("k")).ok().unwrap();
    assert_eq!(got.value, b"two".to_vec());
    assert_eq!(db.list_items(StoreKind::Config, &s("c")).len(), 1);
}

#[test]
fn delete_item_policy_is_the_same_for_every_kind() {
    for kind in kinds() {
        let mut db = DataStore::new();
        db.write_item_at(kind, &s("st"), s("k"), b"v".to_vec(), 1).unwrap();
        assert_eq!(db.delete_item(kind, &s("st"), &s("missing")).err().unwrap().kind, ErrorKind::NotFound);
        assert!(db.delete_item(kind, &s("st"), &s("k")).is_ok());
        assert!(db.list_items(kind, &s("st")).is_empty());
        assert_eq!(db.delete_item(kind, &s("st"), &s("k")).err().unwrap().kind, ErrorKind::NotFound);
        assert_eq!(db.delete_item(kind, &s("other"), &s("k")).err().unwrap().kind, ErrorKind::NotFound);
    }
}

#[test]
fn reload_signal_coalesces_kv_writes() {
    let mut db = DataStore::new();
    let store = db.create_store(StoreKind::Kv, s("kv")).unwrap();
    assert!(db.take_reload());
    assert!(!db.take_reload());
    for i in 0..5 {
        db.upsert_item(StoreKind::Kv, &store.id, format!("key{}", i), vec![i as u8]).unwrap();
    }
    assert!(db.take_reload());
    assert!(!db.take_reload());
    let snap = db.materialize();
    let by_id = entry_named(&snap.kv, &store.id);
    assert_eq!(by_id.len(), 1);
    assert_eq!(by_id[0].items.len(), 5);
    for i in 0..5 {
        let key = format!("key{}", i);
        let item = by_id[0].items.iter().find(|it| it.key == key).unwrap();
        assert_eq!(item.value, vec![i as u8]);
        assert_eq!(item.generation, BASELINE_GENERATION);
    }
}

#[test]
fn config_changes_do_not_raise_reload() {
    let mut db = DataStore::new();
    let store = db.create_store(StoreKind::Config, s("cfg")).unwrap();
    db.upsert_item(StoreKind::Config, &store.id, s("k"), b"v".to_vec()).unwrap();
    assert!(!db.take_reload());
    let secret = db.create_store(StoreKind::Secret, s("sec")).unwrap();
    assert!(db.take_reload());
    db.replace_secret(&secret.id, s("k"), b"v".to_vec());
    assert!(db.take_reload());
}

#[test]
fn snapshot_aliases_id_and_name() {
    let mut db = DataStore::new();
    db.create_store_with(StoreKind::Config, s("cfg1"), s("01ABC"), 7).unwrap();
    db.write_item_at(StoreKind::Config, &s("01ABC"), s("color"), b"blue".to_vec(), 8).unwrap();
    db.write_item_at(StoreKind::Config, &s("01ABC"), s("size"), b"big".to_vec(), 9).unwrap();
    let snap: Snapshot = db.materialize();
    assert_eq!(snap.config.len(), 2);
    assert_eq!(snap.config[0].name, "01ABC");
    assert_eq!(snap.config[1].name, "cfg1");
    let a: Vec<(String, Vec<u8>)> = snap.config[0].items.iter().map(|i| (i.key.clone(), i.value.clone())).collect();
    let b: Vec<(String, Vec<u8>)> = snap.config[1].items.iter().map(|i| (i.key.clone(), i.value.clone())).collect();
    assert_eq!(a, b);
    assert_eq!(a.len(), 2);
    assert!(a.contains(&(s("color"), b"blue".to_vec())));
    assert!(snap.kv.is_empty());
    assert!(snap.secret.is_empty());
}

#[test]
fn snapshot_includes_stores_without_tables() {
    let mut db = DataStore::new();
    db.create_store_with(StoreKind::Secret, s("vault"), s("01S"), 1).unwrap();
    let snap = db.materialize();
    assert_eq!(snap.secret.len(), 2);
    assert!(snap.secret[0].items.is_empty());
    assert_eq!(snap.secret[1].name, "vault");
}

#[test]
fn empty_database_snapshot_is_empty() {
    let snap = DataStore::new().materialize();
    assert!(snap.config.is_empty() && snap.kv.is_empty() && snap.secret.is_empty());
}

#[test]
fn error_status_codes() {
    assert_eq!(Error::new(ErrorKind::NotFound, "x").status_code(), 404);
    assert_eq!(Error::new(ErrorKind::Conflict, "x").status_code(), 409);
    assert_eq!(Error::new(ErrorKind::Validation, "x").status_code(), 400);
    let internal = Error::internal();
    assert_eq!(internal.status_code(), 500);
    assert_eq!(internal.message, "Internal server error");
}

#[test]
fn generation_decodes_decimal_values() {
    assert_eq!(Generation::decode(b"42").map(|g| g.0), Some(42));
    assert_eq!(Generation::decode(b"+7").map(|g| g.0), Some(7));
    assert_eq!(Generation::decode(b"0065535").map(|g| g.0), Some(65535));
    assert!(Generation::decode(b"65536").is_none());
    assert!(Generation::decode(b"").is_none());
    assert!(Generation::decode(b"+").is_none());
    assert!(Generation::decode(b"-1").is_none());
    assert!(Generation::decode(b"1a").is_none());
    assert!(Generation::decode(b"99999999999").is_none());
}

#[test]
fn generation_encodes_and_reads_back() {
    assert_eq!(Generation(1).encode(), b"1".to_vec());
    assert_eq!(Generation(0).encode(), b"0".to_vec());
    assert_eq!(Generation(65535).encode(), b"65535".to_vec());
    assert_eq!(Generation::name(), "generation");
    for g in [0u16, 9, 10, 1234, 65535] {
        assert_eq!(Generation::decode(&Generation(g).encode()).map(|x| x.0), Some(g));
    }
}

#[test]
fn restored_records_keep_their_times_and_raise_nothing() {
    let mut db = DataStore::new();
    db.restore_store(StoreKind::Kv, s("01K"), StoreMetadata { name: s("kv"), created_at: 3, updated_at: Some(4) });
    db.restore_item(StoreKind::Kv, &s("01K"), s("a"), ItemRecord { value: b"x".to_vec(), created_at: 10, updated_at: 20 });
    assert!(!db.take_reload());
    let d = db.get_store(StoreKind::Kv, &s("01K")).ok().unwrap();
    assert_eq!((d.created_at, d.updated_at), (3, Some(4)));
    let item = db.get_item(StoreKind::Kv, &s("01K"), &s("a")).ok().unwrap();
    assert_eq!((item.created_at, item.updated_at), (10, 20));
    let next = db.write_item_at(StoreKind::Kv, &s("01K"), s("a"), b"y".to_vec(), 30).unwrap();
    assert_eq!((next.created_at, next.updated_at), (10, 30));
    assert!(db.take_reload());
}

#[test]
fn replace_makes_the_secret_anew() {
    let mut db = DataStore::new();
    db.create_secret_at(&s("st"), s("k"), b"v1".to_vec(), 10).unwrap();
    let replaced = db.replace_secret_at(&s("st"), s("k"), b"v2".to_vec(), 50);
    assert_eq!((replaced.created_at, replaced.updated_at), (50, 50));
    let shown = db.get_secret(&s("st"), &s("k")).unwrap();
    assert_eq!(shown.created_at, 50);
    assert_eq!(shown.digest[..4].to_vec(), vec![251u8, 4, 220, 182]);
}

#[test]
fn taken_store_id_is_refused() {
    let mut db = DataStore::new();
    db.create_store_with(StoreKind::Config, s("first"), s("01X"), 1).unwrap();
    let err = db.create_store_with(StoreKind::Config, s("second"), s("01X"), 2).err().unwrap();
    assert_eq!(err.kind, ErrorKind::Conflict);
    let kept = db.get_store(StoreKind::Config, &s("01X")).unwrap();
    assert_eq!((kept.name.as_str(), kept.created_at), ("first", 1));
    assert_eq!(db.list_stores(StoreKind::Config).len(), 1);
    assert!(db.create_store_with(StoreKind::Kv, s("other kind"), s("01X"), 3).is_ok());
}

#[test]
fn invalid_kv_keys_are_refused_and_change_nothing() {
    let bad: Vec<String> = vec![
        s(""),
        s("."),
        s(".."),
        s(".well-known/acme-challenge"),
        s(".well-known/acme-challenge/token"),
        s("a\rb"),
        s("a\nb"),
        s("a[b"),
        s("a]b"),
        s("a*b"),
        s("a?b"),
        s("a#b"),
        "x".repeat(1025),
        "\u{e9}".repeat(513),
    ];
    for key in bad {
        let mut db = DataStore::new();
        let err = db.upsert_item(StoreKind::Kv, &s("st"), key.clone(), b"v".to_vec()).err().unwrap();
        assert_eq!(err.kind, ErrorKind::Validation);
        assert_eq!(err.status_code(), 400);
        assert!(db.list_items(StoreKind::Kv, &s("st")).is_empty());
        assert!(!db.take_reload());
    }
}

#[test]
fn valid_kv_keys_are_accepted() {
    let good: Vec<String> = vec![
        s("a"),
        s("..."),
        s(".well-known"),
        s("dir/.well-known/acme-challenge"),
        s("key with spaces"),
        "x".repeat(1024),
        "\u{e9}".repeat(512),
    ];
    let mut db = DataStore::new();
    for key in &good {
        assert!(db.upsert_item(StoreKind::Kv, &s("st"), key.clone(), b"v".to_vec()).is_ok());
    }
    assert_eq!(db.list_items(StoreKind::Kv, &s("st")).len(), good.len());
}

#[test]
fn config_and_secret_keys_are_not_checked() {
    let mut db = DataStore::new();
    assert!(db.upsert_item(StoreKind::Config, &s("c"), s("a#b"), b"v".to_vec()).is_ok());
    assert!(db.create_secret(&s("st"), s(".."), b"v".to_vec()).is_ok());
}
