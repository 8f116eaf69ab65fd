use task_store::errors::StoreError;
use task_store::store::TaskStore;
use task_store::task::Task;
use tempdir::TempDir;

fn open_store(dir: &TempDir) -> TaskStore {
    let path = dir.path().join("data.db");
    TaskStore::open(path.to_str().unwrap()).unwrap()
}

fn task(completed: bool, description: &str, editing: bool) -> Task {
    Task { id: 0, completed, description: String::from(description), editing }
}

#[test]
fn replace_all_renumbers_from_zero() {
    let dir = TempDir::new("store").unwrap();
    let mut store = open_store(&dir);

    // leave a gap so the old identifiers are not already contiguous
    assert_eq!(store.create(&task(false, "old a", false)), Ok(0));
    assert_eq!(store.create(&task(false, "old b", false)), Ok(1));
    assert_eq!(store.create(&task(false, "old c", false)), Ok(2));
    assert_eq!(store.delete(1), Ok(()));

    let fresh = vec![task(false, "x", false), task(true, "y", false), task(false, "z", true)];
    assert_eq!(store.replace_all(&fresh), Ok(()));

    let listing = store.list().unwrap();
    assert_eq!(listing.len(), 3);
    assert_eq!(listing[0].id, 0);
    assert_eq!(listing[0].description, "x");
    assert_eq!(listing[1].id, 1);
    assert_eq!(listing[1].description, "y");
    assert_eq!(listing[1].completed, true);
    assert_eq!(listing[2].id, 2);
    assert_eq!(listing[2].description, "z");
    assert_eq!(listing[2].editing, true);

    // nothing of the old set survives
    assert!(matches!(store.get(3), Err(StoreError::NotFound)));
}

#[test]
fn replace_all_ignores_supplied_ids() {
    let dir = TempDir::new("store").unwrap();
    let mut store = open_store(&dir);

    let mut a = task(false, "a", false);
    let mut b = task(false, "b", false);
    a.id = 9;
    b.id = 9;
    assert_eq!(store.replace_all(&vec![a, b]), Ok(()));

    let listing = store.list().unwrap();
    assert_eq!(listing.len(), 2);
    assert_eq!(listing[0].id, 0);
    assert_eq!(listing[1].id, 1);
    assert!(matches!(store.get(9), Err(StoreError::NotFound)));
}

#[test]
fn replace_all_twice_yields_the_same_listing() {
    let dir = TempDir::new("store").unwrap();
    let mut store = open_store(&dir);

    assert_eq!(store.create(&task(false, "before", false)), Ok(0));

    let fresh = vec![task(true, "one", false), task(false, "two", true)];
    assert_eq!(store.replace_all(&fresh), Ok(()));
    let first = store.list().unwrap();

    assert_eq!(store.replace_all(&fresh), Ok(()));
    let second = store.list().unwrap();

    assert_eq!(first.len(), second.len());
    for (a, b) in first.iter().zip(second.iter()) {
        assert_eq!(a.id, b.id);
        assert_eq!(a.completed, b.completed);
        assert_eq!(a.description, b.description);
        assert_eq!(a.editing, b.editing);
    }
}

#[test]
fn replace_all_with_empty_input_clears_the_store() {
    let dir = TempDir::new("store").unwrap();
    let mut store = open_store(&dir);

    assert_eq!(store.create(&task(false, "gone", false)), Ok(0));
    assert_eq!(store.replace_all(&vec![]), Ok(()));
    assert_eq!(store.list().unwrap().len(), 0);
    assert!(matches!(store.get(0), Err(StoreError::NotFound)));
}

#[test]
fn replace_all_rejects_more_than_256_records() {
    let dir = TempDir::new("store").unwrap();
    let mut store = open_store(&dir);

    assert_eq!(store.create(&task(false, "kept", false)), Ok(0));

    let mut too_many = Vec::new();
    for _ in 0..257 {
        too_many.push(task(false, "t", false));
    }
    assert_eq!(store.replace_all(&too_many), Err(StoreError::CapacityExceeded));

    // the failed replace changed nothing
    let listing = store.list().unwrap();
    assert_eq!(listing.len(), 1);
    assert_eq!(listing[0].description, "kept");
}
