//! Laws of the driver, stated over the store's mathematical model and the
//! codec's names, and proved once for all inputs.

use vstd::prelude::*;
use vstd::utf8::encode_utf8;

use crate::codec::encoding_of;
use crate::driver::{bytes_lt, sorted_by_key};
use crate::errors::DbError;
use crate::models::{Todo, TodoView};

verus! {

/// Round trip: after an insert writes the encoding of record `t` at key
/// `k`, the store holds exactly that encoding at `k`. `Db::get`'s contract
/// then forces any non-failing read at `k` to return `t` itself.
pub proof fn lemma_insert_then_get(m: Map<Seq<u8>, Seq<u8>>, k: Seq<u8>, t: TodoView)
    ensures
        m.insert(k, encoding_of(t)).contains_key(k),
        m.insert(k, encoding_of(t))[k] == encoding_of(t),
{
}

/// Last write wins: two inserts at one key leave exactly the state of the
/// second insert alone; no part of the first value survives, and no other
/// key is touched.
pub proof fn lemma_last_write_wins(m: Map<Seq<u8>, Seq<u8>>, k: Seq<u8>, v1: Seq<u8>, v2: Seq<u8>)
    ensures
        m.insert(k, v1).insert(k, v2) == m.insert(k, v2),
{
    assert(m.insert(k, v1).insert(k, v2) =~= m.insert(k, v2));
}

/// After a remove the key is absent; and removing an absent key changes
/// nothing, so removal of what is not there is a harmless no-op.
pub proof fn lemma_remove_then_absent(m: Map<Seq<u8>, Seq<u8>>, k: Seq<u8>)
    ensures
        !m.remove(k).contains_key(k),
        !m.contains_key(k) ==> m.remove(k) == m,
{
    if !m.contains_key(k) {
        assert(m.remove(k) =~= m);
    }
}

/// Removing a key twice has the same observable effect as removing it once.
pub proof fn lemma_remove_idempotent(m: Map<Seq<u8>, Seq<u8>>, k: Seq<u8>)
    ensures
        m.remove(k).remove(k) == m.remove(k),
{
    assert(m.remove(k).remove(k) =~= m.remove(k));
}

/// An insert at one key leaves every other key exactly as it was: whether
/// the other key is present, and what it holds, do not change.
pub proof fn lemma_other_keys_untouched(
    m: Map<Seq<u8>, Seq<u8>>,
    k1: Seq<char>,
    k2: Seq<char>,
    v: Seq<u8>,
)
    requires
        k1 != k2,
    ensures
        m.insert(encode_utf8(k1), v).contains_key(encode_utf8(k2)) == m.contains_key(
            encode_utf8(k2),
        ),
        m.contains_key(encode_utf8(k2)) ==> m.insert(encode_utf8(k1), v)[encode_utf8(k2)]
            == m[encode_utf8(k2)],
{
    vstd::utf8::encode_utf8_decode_utf8(k1);
    vstd::utf8::encode_utf8_decode_utf8(k2);
}

/// The byte order is irreflexive: no key sorts strictly before itself.
pub proof fn lemma_bytes_lt_irreflexive(a: Seq<u8>)
    ensures
        !bytes_lt(a, a),
    decreases a.len(),
{
    if a.len() > 0 {
        lemma_bytes_lt_irreflexive(a.drop_first());
    }
}

/// One iteration never yields a key twice: the strict ascending order of
/// `Db::iter` and `Db::iter_prefix` makes the yielded keys pairwise
/// distinct.
pub proof fn lemma_iteration_keys_distinct(es: Seq<Result<(String, Todo), DbError>>)
    requires
        sorted_by_key(es),
    ensures
        forall|i: int, j: int|
            0 <= i < j < es.len() && (#[trigger] es[i]) is Ok && (#[trigger] es[j]) is Ok ==> (
            es[i]->Ok_0).0@ != (es[j]->Ok_0).0@,
{
    assert forall|i: int, j: int|
        0 <= i < j < es.len() && (#[trigger] es[i]) is Ok && (#[trigger] es[j]) is Ok implies (
    es[i]->Ok_0).0@ != (es[j]->Ok_0).0@ by {
        lemma_bytes_lt_irreflexive(encode_utf8((es[i]->Ok_0).0@));
    }
}

/// A run of ids issued by successive `Db::next_id` calls, chained through
/// the id floor exactly as that function's contract moves it: each id is at
/// least the floor it was issued under, and the floor moves strictly past
/// it for the next call.
pub open spec fn issue_chain(floor: int, ids: Seq<u64>) -> bool
    decreases ids.len(),
{
    ids.len() == 0 || (floor <= ids[0] as int && issue_chain(
        ids[0] as int + 1,
        ids.drop_first(),
    ))
}

/// Every id of a chain lies at or above the floor the chain started from.
pub proof fn lemma_issue_chain_floor(floor: int, ids: Seq<u64>)
    requires
        issue_chain(floor, ids),
    ensures
        forall|i: int| 0 <= i < ids.len() ==> floor <= ids[i] as int,
    decreases ids.len(),
{
    if ids.len() > 0 {
        lemma_issue_chain_floor(ids[0] as int + 1, ids.drop_first());
        assert forall|i: int| 0 <= i < ids.len() implies floor <= ids[i] as int by {
            if i > 0 {
                assert(ids.drop_first()[i - 1] == ids[i]);
            }
        }
    }
}

/// Monotonic ids: the ids of a chain strictly increase, so N calls to the
/// generator return N pairwise distinct values in issue order, with no
/// repeats for the life of the store.
pub proof fn lemma_issue_chain_strictly_increasing(floor: int, ids: Seq<u64>)
    requires
        issue_chain(floor, ids),
    ensures
        forall|i: int, j: int| 0 <= i < j < ids.len() ==> ids[i] < ids[j],
    decreases ids.len(),
{
    if ids.len() > 1 {
        lemma_issue_chain_floor(ids[0] as int + 1, ids.drop_first());
        lemma_issue_chain_strictly_increasing(ids[0] as int + 1, ids.drop_first());
        assert forall|i: int, j: int| 0 <= i < j < ids.len() implies ids[i] < ids[j] by {
            if i == 0 {
                assert(ids.drop_first()[j - 1] == ids[j]);
            } else {
                assert(ids.drop_first()[i - 1] == ids[i]);
                assert(ids.drop_first()[j - 1] == ids[j]);
            }
        }
    }
}

} // verus!
