use crate::codec::{encode_spec, lemma_encode_decode};
use crate::store::{is_next_id, list_spec, list_upto, listed, replace_map};
use crate::task::{with_id, TaskSpec};
use vstd::prelude::*;

verus! {

/// On an empty store the first created record gets identifier 0.
pub proof fn lemma_first_id_is_zero()
    ensures
        is_next_id(Map::<u8, Seq<u8>>::empty(), 0),
{
}

/// The next identifier is determined by the store contents: no store
/// admits two different next identifiers. With the lemma above, a create
/// on an empty store can only assign 0.
pub proof fn lemma_next_id_unique(m: Map<u8, Seq<u8>>, n1: int, n2: int)
    requires
        is_next_id(m, n1),
        is_next_id(m, n2),
    ensures
        n1 == n2,
{
}

/// Identifiers assigned by consecutive creates, with no delete between
/// them, are strictly increasing: once a create stores a record under the
/// next free identifier `n`, the identifier handed out next is `n + 1`.
pub proof fn lemma_create_ids_strictly_increase(m: Map<u8, Seq<u8>>, n: int, v: Seq<u8>)
    requires
        is_next_id(m, n),
        n < 256,
    ensures
        is_next_id(m.insert((n as u8), v), n + 1),
{
}

/// After a create assigns identifier `k` and stores record `t` under it, a
/// lookup of `k` yields exactly `t` with its identifier field set to `k`.
pub proof fn lemma_create_then_get(m: Map<u8, Seq<u8>>, t: TaskSpec, k: u8)
    ensures
        listed(m.insert(k, encode_spec(with_id(t, k))), k) == Some(with_id(t, k)),
{
    lemma_encode_decode(with_id(t, k));
}

/// After an update of `k` with record `t` succeeds, a lookup of `k` yields
/// exactly `t` with identifier `k`; the set of identifiers in use is
/// unchanged, and so is every other identifier's listed record.
pub proof fn lemma_update_then_get(m: Map<u8, Seq<u8>>, t: TaskSpec, k: u8)
    requires
        m.contains_key(k),
    ensures
        listed(m.insert(k, encode_spec(with_id(t, k))), k) == Some(with_id(t, k)),
        m.insert(k, encode_spec(with_id(t, k))).dom() == m.dom(),
        forall|j: u8|
            j != k ==> listed(m.insert(k, encode_spec(with_id(t, k))), j) == listed(m, j),
{
    lemma_create_then_get(m, t, k);
    assert(m.insert(k, encode_spec(with_id(t, k))).dom() =~= m.dom());
}

/// Each element of a listing carries the identifier it is listed under:
/// it is the record listed for some identifier below `n`, and identifiers
/// strictly ascend along the listing.
proof fn lemma_list_upto_entries(m: Map<u8, Seq<u8>>, n: int)
    requires
        0 <= n <= 256,
    ensures
        forall|i: int|
            0 <= i < list_upto(m, n).len() ==> {
                &&& (#[trigger] list_upto(m, n)[i]).id < n
                &&& listed(m, list_upto(m, n)[i].id) == Some(list_upto(m, n)[i])
            },
        forall|i: int, j: int|
            0 <= i < j < list_upto(m, n).len() ==> list_upto(m, n)[i].id < list_upto(m, n)[j].id,
    decreases n,
{
    if n > 0 {
        lemma_list_upto_entries(m, n - 1);
        let prev = list_upto(m, n - 1);
        match listed(m, (n - 1) as u8) {
            Some(t) => {
                assert(t.id == n - 1);
                assert(list_upto(m, n) == prev.push(t));
                assert(forall|i: int| 0 <= i < prev.len() ==> prev.push(t)[i] == prev[i]);
                assert(prev.push(t)[prev.len() as int] == t);
            },
            None => {},
        }
    }
}

/// After a delete of `k` succeeds, `k` is absent, no record in the listing
/// carries identifier `k`, and every other identifier is listed exactly as
/// before.
pub proof fn lemma_delete_then_absent(m: Map<u8, Seq<u8>>, k: u8)
    ensures
        !m.remove(k).contains_key(k),
        forall|i: int|
            0 <= i < list_spec(m.remove(k)).len() ==> (#[trigger] list_spec(m.remove(k))[i]).id
                != k,
        forall|j: u8| j != k ==> listed(m.remove(k), j) == listed(m, j),
{
    lemma_list_upto_entries(m.remove(k), 256);
    assert(listed(m.remove(k), k) is None);
}

/// The listing after a bulk replace of the first `n` identifiers matches
/// the first `n` supplied records, each under its position.
proof fn lemma_replace_list_upto(ts: Seq<TaskSpec>, n: int)
    requires
        ts.len() <= 256,
        0 <= n <= 256,
    ensures
        list_upto(replace_map(ts), n) =~= Seq::new(
            if n <= ts.len() {
                n as nat
            } else {
                ts.len()
            },
            |i: int| with_id(ts[i], i as u8),
        ),
    decreases n,
{
    if n > 0 {
        lemma_replace_list_upto(ts, n - 1);
        let id = (n - 1) as u8;
        if n <= ts.len() {
            lemma_encode_decode(with_id(ts[n - 1], id));
            assert(listed(replace_map(ts), id) == Some(with_id(ts[n - 1], id)));
        } else {
            assert(!replace_map(ts).contains_key(id));
        }
    }
}

/// After a bulk replace with records `ts`, the listing holds exactly those
/// records, in input order, under identifiers 0, 1, 2, …, whatever the
/// store held before the call.
pub proof fn lemma_replace_all_then_list(ts: Seq<TaskSpec>)
    requires
        ts.len() <= 256,
    ensures
        list_spec(replace_map(ts)).len() == ts.len(),
        forall|i: int|
            0 <= i < ts.len() ==> list_spec(replace_map(ts))[i] == with_id(ts[i], i as u8),
{
    lemma_replace_list_upto(ts, 256);
}

/// Replacing the whole collection is idempotent: the contents after a
/// successful replace are a function of the supplied records alone, never
/// of what the store held before, so a second replace with the same
/// records leaves the contents — and hence the listing — exactly as the
/// first left them.
pub proof fn lemma_replace_all_idempotent(
    first: Map<u8, Seq<u8>>,
    second: Map<u8, Seq<u8>>,
    ts: Seq<TaskSpec>,
)
    requires
        first == replace_map(ts),
        second == replace_map(ts),
    ensures
        first == second,
        list_spec(first) == list_spec(second),
{
}

} // verus!
