use vstd::prelude::*;

verus! {

/// sled's ordered key-value tree, the storage engine the store is built on.
/// Declared so that a handle can be held in a field and handed to the
/// trusted wrappers below; what it holds is visible to the verifier only
/// through `tree_entries`.
#[verifier::external_type_specification]
#[verifier::external_body]
pub struct ExTree(sled::Tree);

/// sled's error type. It leaves the trusted wrappers opaquely and the
/// verified callers map it to `StoreError::EngineFailure`.
#[verifier::external_type_specification]
#[verifier::external_body]
pub struct ExSledError(sled::Error);

/// What the engine holds under each single-byte key. The store keeps every
/// record under the one-byte key `[id]`, and the wrappers below state their
/// effect on this map; keys of any other length are never touched.
pub uninterp spec fn tree_entries(t: sled::Tree) -> Map<u8, Seq<u8>>;

/// Relies on sled::Tree::get: returns the value stored under the one-byte
/// key `[id]`, or `None` when that key is absent.
#[verifier::external_body]
pub(crate) fn engine_get(t: &sled::Tree, id: u8) -> (r: Result<Option<Vec<u8>>, sled::Error>)
    ensures
        match r {
            Ok(Some(v)) => tree_entries(*t).contains_key(id) && v@ == tree_entries(*t)[id],
            Ok(None) => !tree_entries(*t).contains_key(id),
            Err(_) => true,
        },
{
    match t.get([id]) {
        Ok(opt) => Ok(opt.map(|v| v.to_vec())),
        Err(e) => Err(e),
    }
}

/// Relies on sled::Tree::insert: after a successful call the given value
/// stands under the one-byte key `[id]` and every other key is unchanged.
/// When sled reports an error, nothing is promised about the tree.
#[verifier::external_body]
pub(crate) fn engine_insert(t: &mut sled::Tree, id: u8, value: &[u8]) -> (r: Result<
    (),
    sled::Error,
>)
    ensures
        r is Ok ==> tree_entries(*final(t)) == tree_entries(*old(t)).insert(id, value@),
{
    match t.insert([id], value) {
        Ok(_) => Ok(()),
        Err(e) => Err(e),
    }
}

/// Relies on sled::Tree::remove: after a successful call the one-byte key
/// `[id]` is absent and every other key is unchanged. When sled reports an
/// error, nothing is promised about the tree.
#[verifier::external_body]
pub(crate) fn engine_remove(t: &mut sled::Tree, id: u8) -> (r: Result<(), sled::Error>)
    ensures
        r is Ok ==> tree_entries(*final(t)) == tree_entries(*old(t)).remove(id),
{
    match t.remove([id]) {
        Ok(_) => Ok(()),
        Err(e) => Err(e),
    }
}

/// Relies on sled::Config::open and sled::Db::open_tree: opens (creating it
/// if need be) the database persisted at `path`, configured with the given
/// cache size and flush interval, and returns its tree of the given name.
/// Nothing is known of a freshly opened tree's entries: they are whatever
/// the file already held.
#[verifier::external_body]
pub(crate) fn engine_open(
    path: &str,
    tree_name: &str,
    cache_capacity: u64,
    flush_every_ms: u64,
) -> (r: Result<sled::Tree, sled::Error>) {
    let config = sled::Config::new()
        .path(path)
        .mode(sled::Mode::LowSpace)
        .cache_capacity(cache_capacity)
        .flush_every_ms(Some(flush_every_ms));
    match config.open() {
        Ok(db) => db.open_tree(tree_name),
        Err(e) => Err(e),
    }
}

} // verus!
