use task_store::errors::StoreError;
use task_store::store::TaskStore;
use tempdir::TempDir;

// Write raw bytes with sled itself, then read them back through the store:
// entries the store never wrote may not decode, and the store must report
// them without hiding the healthy ones.
#[test]
fn damaged_entries_are_reported_and_skipped() {
    let dir = TempDir::new("store").unwrap();
    let path = dir.path().join("data.db");
    {
        let db = sled::Config::new().path(&path).open().unwrap();
        let tree = db.open_tree("tree").unwrap();
        // a healthy record: id, two flag bytes, UTF-8 description
        tree.insert([0u8], &[0u8, 0, 0, b'o', b'k'][..]).unwrap();
        // a flag byte far out of range
        tree.insert([1u8], &b"{not a task}"[..]).unwrap();
        // description bytes that are not valid UTF-8
        tree.insert([2u8], &[2u8, 0, 0, 0xff, 0xfe][..]).unwrap();
        // too short to hold the flags
        tree.insert([3u8], &[3u8, 0][..]).unwrap();
        // another healthy record
        tree.insert([4u8], &[4u8, 0, 1, b'l', b'a', b't', b'e', b'r'][..]).unwrap();
        tree.flush().unwrap();
    }

    let store = TaskStore::open(path.to_str().unwrap()).unwrap();

    assert!(matches!(store.get(1), Err(StoreError::DeserializationError)));
    assert!(matches!(store.get(2), Err(StoreError::DeserializationError)));
    assert!(matches!(store.get(3), Err(StoreError::DeserializationError)));

    // one damaged record does not make the listing unavailable
    let listing = store.list().unwrap();
    assert_eq!(listing.len(), 2);
    assert_eq!(listing[0].id, 0);
    assert_eq!(listing[0].description, "ok");
    assert_eq!(listing[1].id, 4);
    assert_eq!(listing[1].description, "later");
    assert_eq!(listing[1].editing, true);
}

// Opening the store somewhere the engine cannot use is reported, not hidden.
#[test]
fn an_unusable_location_reports_engine_failure() {
    let dir = TempDir::new("store").unwrap();
    let path = dir.path().join("data.db");
    {
        // create a real database so that a plain file exists inside it
        let db = sled::Config::new().path(&path).open().unwrap();
        db.flush().unwrap();
    }
    // point the store at that plain file: the engine cannot open it
    let inner_file = path.join("db");
    assert!(matches!(
        TaskStore::open(inner_file.to_str().unwrap()),
        Err(StoreError::EngineFailure)
    ));
}

// The identifier a record is read under comes from its key, not from the
// byte the stored record carries.
#[test]
fn the_key_overrides_the_stored_id_byte() {
    let dir = TempDir::new("store").unwrap();
    let path = dir.path().join("data.db");
    {
        let db = sled::Config::new().path(&path).open().unwrap();
        let tree = db.open_tree("tree").unwrap();
        tree.insert([5u8], &[77u8, 0, 0, b'x'][..]).unwrap();
        tree.flush().unwrap();
    }

    let store = TaskStore::open(path.to_str().unwrap()).unwrap();
    let got = store.get(5).unwrap();
    assert_eq!(got.id, 5);
    assert_eq!(got.description, "x");

    let listing = store.list().unwrap();
    assert_eq!(listing.len(), 1);
    assert_eq!(listing[0].id, 5);
}
