use vstd::prelude::*;

use crate::materialize::{aliased_pair, contents, expected_contents, id_at, materialized, BASELINE_GENERATION, SnapshotStore};
use crate::model::{new_meta, ItemView, MetaView, StoreKind};
use crate::secrets::shown;
use crate::store::{after_create, after_delete, after_item_delete, after_replace, after_write, StoreView};

verus! {

/// The stores of `kind` after store `id` was created are those before, with
/// `id` added.
pub proof fn lemma_stores_of_after_create(v: StoreView, kind: StoreKind, id: Seq<char>, meta: MetaView)
    ensures
        after_create(v, kind, id, meta).stores_of(kind) == v.stores_of(kind).insert(id, meta),
        forall|k: StoreKind| k != kind ==> #[trigger] after_create(v, kind, id, meta).stores_of(k) == v.stores_of(k),
{
    assert(after_create(v, kind, id, meta).stores_of(kind) =~= v.stores_of(kind).insert(id, meta));
    assert forall|k: StoreKind| k != kind implies #[trigger] after_create(v, kind, id, meta).stores_of(k) == v.stores_of(k) by {
        assert(after_create(v, kind, id, meta).stores_of(k) =~= v.stores_of(k));
    }
}

/// Creating a store and then looking it up by its id finds it, with the name
/// it was created with.
pub proof fn lemma_create_then_get(v: StoreView, kind: StoreKind, id: Seq<char>, name: Seq<char>, now: i64)
    ensures
        after_create(v, kind, id, new_meta(kind, name, now)).stores_of(kind).contains_key(id),
        after_create(v, kind, id, new_meta(kind, name, now)).stores_of(kind)[id].name == name,
{
    lemma_stores_of_after_create(v, kind, id, new_meta(kind, name, now));
}

/// Once created, a store keeps its descriptor through every operation but
/// its own deletion: creating a store under a free id, deleting another
/// store, and writing, replacing or removing items leave it as it was, so a
/// later lookup by its id still finds it with the name it was created with.
pub proof fn lemma_store_survives(v: StoreView, kind: StoreKind, id: Seq<char>)
    requires
        v.stores_of(kind).contains_key(id),
    ensures
        forall|k: StoreKind, other: Seq<char>, meta: MetaView| !v.stores_of(k).contains_key(other) ==> {
            &&& #[trigger] after_create(v, k, other, meta).stores_of(kind).contains_key(id)
            &&& after_create(v, k, other, meta).stores_of(kind)[id] == v.stores_of(kind)[id]
        },
        forall|k: StoreKind, other: Seq<char>| (k, other) != (kind, id) ==> {
            &&& #[trigger] after_delete(v, k, other).stores_of(kind).contains_key(id)
            &&& after_delete(v, k, other).stores_of(kind)[id] == v.stores_of(kind)[id]
        },
        forall|k: StoreKind, s: Seq<char>, key: Seq<char>, value: Seq<u8>, now: i64|
            #[trigger] after_write(v, k, s, key, value, now).stores == v.stores,
        forall|k: StoreKind, s: Seq<char>, key: Seq<char>, value: Seq<u8>, now: i64|
            #[trigger] after_replace(v, k, s, key, value, now).stores == v.stores,
        forall|k: StoreKind, s: Seq<char>, key: Seq<char>|
            #[trigger] after_item_delete(v, k, s, key).stores == v.stores,
{
    assert forall|k: StoreKind, other: Seq<char>, meta: MetaView| !v.stores_of(k).contains_key(other) implies {
        &&& #[trigger] after_create(v, k, other, meta).stores_of(kind).contains_key(id)
        &&& after_create(v, k, other, meta).stores_of(kind)[id] == v.stores_of(kind)[id]
    } by {
        assert((k, other) != (kind, id));
    }
    assert forall|k: StoreKind, other: Seq<char>| (k, other) != (kind, id) implies {
        &&& #[trigger] after_delete(v, k, other).stores_of(kind).contains_key(id)
        &&& after_delete(v, k, other).stores_of(kind)[id] == v.stores_of(kind)[id]
    } by {}
}

/// After a store is deleted, looking it up fails and listing its items
/// gives none: its descriptor and its table are gone together.
pub proof fn lemma_delete_then_lookups(v: StoreView, kind: StoreKind, id: Seq<char>)
    ensures
        !after_delete(v, kind, id).stores_of(kind).contains_key(id),
        after_delete(v, kind, id).items(kind, id) == Map::<Seq<char>, ItemView>::empty(),
{
}

/// A store whose table was never created lists no items, and looking up any
/// key in it finds nothing.
pub proof fn lemma_absent_table(v: StoreView, kind: StoreKind, id: Seq<char>, key: Seq<char>)
    requires
        !v.tables.contains_key((kind, id)),
    ensures
        v.items(kind, id) == Map::<Seq<char>, ItemView>::empty(),
        !v.items(kind, id).contains_key(key),
{
}

/// The state after the stores `ids` of `kind`, named `names`, were created
/// one after another at `now`.
pub open spec fn after_creates(v: StoreView, kind: StoreKind, ids: Seq<Seq<char>>, names: Seq<Seq<char>>, now: i64) -> StoreView
    decreases ids.len(),
{
    if ids.len() == 0 {
        v
    } else {
        after_create(
            after_creates(v, kind, ids.drop_last(), names.drop_last(), now),
            kind,
            ids.last(),
            new_meta(kind, names.last(), now),
        )
    }
}

/// Whether every id of `ids` was free among the stores of `kind` when its
/// store was created, as each successful `DataStore::create_store` ensures.
pub open spec fn fresh_creates(v: StoreView, kind: StoreKind, ids: Seq<Seq<char>>, names: Seq<Seq<char>>, now: i64) -> bool {
    forall|i: int| 0 <= i < ids.len()
        ==> !#[trigger] after_creates(v, kind, ids.take(i), names.take(i), now).stores_of(kind).contains_key(ids[i])
}

proof fn lemma_creates_contents(v: StoreView, kind: StoreKind, ids: Seq<Seq<char>>, names: Seq<Seq<char>>, now: i64)
    requires
        fresh_creates(v, kind, ids, names, now),
        names.len() == ids.len(),
    ensures
        ids.no_duplicates(),
        forall|x: Seq<char>| #[trigger] after_creates(v, kind, ids, names, now).stores_of(kind).contains_key(x)
            <==> (v.stores_of(kind).contains_key(x) || ids.contains(x)),
        forall|x: Seq<char>| #[trigger] v.stores_of(kind).contains_key(x)
            ==> after_creates(v, kind, ids, names, now).stores_of(kind)[x] == v.stores_of(kind)[x],
        forall|i: int| 0 <= i < ids.len() ==> #[trigger] after_creates(v, kind, ids, names, now).stores_of(kind)[ids[i]].name == names[i],
    decreases ids.len(),
{
    if ids.len() > 0 {
        let n = ids.len() - 1;
        let pre = ids.drop_last();
        let pn = names.drop_last();
        assert forall|i: int| 0 <= i < pre.len()
            implies !#[trigger] after_creates(v, kind, pre.take(i), pn.take(i), now).stores_of(kind).contains_key(pre[i]) by {
            assert(pre.take(i) =~= ids.take(i));
            assert(pn.take(i) =~= names.take(i));
            assert(!after_creates(v, kind, ids.take(i), names.take(i), now).stores_of(kind).contains_key(ids[i]));
        }
        lemma_creates_contents(v, kind, pre, pn, now);
        let w = after_creates(v, kind, pre, pn, now);
        assert(ids.take(n) =~= pre);
        assert(names.take(n) =~= pn);
        assert(!after_creates(v, kind, ids.take(n), names.take(n), now).stores_of(kind).contains_key(ids[n]));
        assert(!w.stores_of(kind).contains_key(ids.last()));
        lemma_stores_of_after_create(w, kind, ids.last(), new_meta(kind, names.last(), now));
        let s = after_creates(v, kind, ids, names, now).stores_of(kind);
        assert forall|a: int, b: int| 0 <= a < ids.len() && 0 <= b < ids.len() && a != b implies ids[a] != ids[b] by {
            if a < n && b < n {
                assert(pre[a] == ids[a] && pre[b] == ids[b]);
            } else if a < n {
                assert(pre[a] == ids[a]);
                assert(pre.contains(ids[a]));
                assert(w.stores_of(kind).contains_key(ids[a]));
            } else {
                assert(pre[b] == ids[b]);
                assert(pre.contains(ids[b]));
                assert(w.stores_of(kind).contains_key(ids[b]));
            }
        }
        assert forall|x: Seq<char>| #[trigger] s.contains_key(x) <==> (v.stores_of(kind).contains_key(x) || ids.contains(x)) by {
            if ids.contains(x) && x != ids.last() {
                let i = choose|i: int| 0 <= i < ids.len() && ids[i] == x;
                assert(pre[i] == x);
            }
            if pre.contains(x) {
                let i = choose|i: int| 0 <= i < pre.len() && pre[i] == x;
                assert(ids[i] == x);
            }
            if x == ids.last() {
                assert(ids[n] == x);
            }
        }
        assert forall|x: Seq<char>| #[trigger] v.stores_of(kind).contains_key(x) implies s[x] == v.stores_of(kind)[x] by {
            assert(w.stores_of(kind).contains_key(x));
        }
        assert forall|i: int| 0 <= i < ids.len() implies #[trigger] s[ids[i]].name == names[i] by {
            if i < n {
                assert(pre[i] == ids[i]);
                assert(pre.contains(ids[i]));
                assert(ids[i] != ids.last());
                assert(pn[i] == names[i]);
            }
        }
    }
}

/// Creates of stores, taken one at a time as write units are, each with an
/// id that was free when it ran, lose none of each other's inserts: their ids
/// are distinct, every one of them is listed with its name, and every store
/// listed before is kept as it was. Starting from no stores of that kind, the
/// list afterwards holds exactly those ids.
pub proof fn lemma_serialized_creates(v: StoreView, kind: StoreKind, ids: Seq<Seq<char>>, names: Seq<Seq<char>>, now: i64)
    requires
        fresh_creates(v, kind, ids, names, now),
        names.len() == ids.len(),
    ensures
        ids.no_duplicates(),
        forall|i: int| 0 <= i < ids.len() ==> #[trigger] after_creates(v, kind, ids, names, now).stores_of(kind)[ids[i]].name == names[i],
        forall|x: Seq<char>| #[trigger] v.stores_of(kind).contains_key(x)
            ==> after_creates(v, kind, ids, names, now).stores_of(kind).contains_key(x)
                && after_creates(v, kind, ids, names, now).stores_of(kind)[x] == v.stores_of(kind)[x],
        v.stores_of(kind) == Map::<Seq<char>, MetaView>::empty() ==> {
            &&& after_creates(v, kind, ids, names, now).stores_of(kind).dom() == ids.to_set()
            &&& after_creates(v, kind, ids, names, now).stores_of(kind).dom().len() == ids.len()
        },
{
    lemma_creates_contents(v, kind, ids, names, now);
    let s = after_creates(v, kind, ids, names, now).stores_of(kind);
    if v.stores_of(kind) == Map::<Seq<char>, MetaView>::empty() {
        assert(s.dom() =~= ids.to_set());
        ids.unique_seq_to_set();
    }
}

/// A strict create of a secret whose name is taken fails and keeps the stored
/// value; the explicit replace that follows leaves the new value, which a
/// lookup then shows.
pub proof fn lemma_secret_conflict_then_replace(
    v: StoreView,
    id: Seq<char>,
    name: Seq<char>,
    first: Seq<u8>,
    second: Seq<u8>,
    t1: i64,
    t2: i64,
)
    requires
        !v.items(StoreKind::Secret, id).contains_key(name),
    ensures
        ({
            let created = after_write(v, StoreKind::Secret, id, name, first, t1);
            let replaced = after_replace(created, StoreKind::Secret, id, name, second, t2);
            &&& created.items(StoreKind::Secret, id).contains_key(name)
            &&& created.items(StoreKind::Secret, id)[name].value == first
            &&& replaced.items(StoreKind::Secret, id).contains_key(name)
            &&& replaced.items(StoreKind::Secret, id)[name].value == second
            &&& replaced.items(StoreKind::Secret, id)[name].created_at == t2
            &&& shown(replaced.items(StoreKind::Secret, id)[name]).0 == crate::support::sha256_of(second)
        }),
{
}

/// The state after `values` were written under `keys` in store `id` of
/// `kind`, one write after another, at `now`.
pub open spec fn after_writes(
    v: StoreView,
    kind: StoreKind,
    id: Seq<char>,
    keys: Seq<Seq<char>>,
    values: Seq<Seq<u8>>,
    now: i64,
) -> StoreView
    decreases keys.len(),
{
    if keys.len() == 0 {
        v
    } else {
        after_write(after_writes(v, kind, id, keys.drop_last(), values.drop_last(), now), kind, id, keys.last(), values.last(), now)
    }
}

proof fn lemma_writes_contents(v: StoreView, id: Seq<char>, keys: Seq<Seq<char>>, values: Seq<Seq<u8>>, now: i64)
    requires
        keys.no_duplicates(),
        values.len() == keys.len(),
    ensures
        keys.len() > 0 ==> after_writes(v, StoreKind::Kv, id, keys, values, now).reload_pending,
        after_writes(v, StoreKind::Kv, id, keys, values, now).stores == v.stores,
        forall|i: int| 0 <= i < keys.len() ==> {
            &&& after_writes(v, StoreKind::Kv, id, keys, values, now).items(StoreKind::Kv, id).contains_key(#[trigger] keys[i])
            &&& after_writes(v, StoreKind::Kv, id, keys, values, now).items(StoreKind::Kv, id)[keys[i]].value == values[i]
        },
    decreases keys.len(),
{
    if keys.len() > 0 {
        let pre = keys.drop_last();
        assert(pre.no_duplicates());
        lemma_writes_contents(v, id, pre, values.drop_last(), now);
        assert forall|i: int| 0 <= i < keys.len() implies {
            &&& after_writes(v, StoreKind::Kv, id, keys, values, now).items(StoreKind::Kv, id).contains_key(#[trigger] keys[i])
            &&& after_writes(v, StoreKind::Kv, id, keys, values, now).items(StoreKind::Kv, id)[keys[i]].value == values[i]
        } by {
            if i < keys.len() - 1 {
                assert(pre[i] == keys[i]);
                assert(keys[i] != keys.last());
                assert(values.drop_last()[i] == values[i]);
            }
        }
    }
}

/// A burst of KV writes leaves one pending reload: taking it wakes the
/// consumer once and clears it, and a snapshot taken after that wake-up holds
/// every write.
pub proof fn lemma_reload_coalescing(
    v: StoreView,
    id: Seq<char>,
    keys: Seq<Seq<char>>,
    values: Seq<Seq<u8>>,
    now: i64,
    snapshot: Seq<SnapshotStore>,
)
    requires
        keys.len() > 0,
        keys.no_duplicates(),
        values.len() == keys.len(),
        v.stores_of(StoreKind::Kv).contains_key(id),
        materialized(
            (StoreView { reload_pending: false, ..after_writes(v, StoreKind::Kv, id, keys, values, now) }),
            StoreKind::Kv,
            snapshot,
        ),
    ensures
        after_writes(v, StoreKind::Kv, id, keys, values, now).reload_pending,
        exists|j: int| {
            &&& 0 <= j < snapshot.len() / 2
            &&& #[trigger] id_at(snapshot, j) == id
            &&& forall|i: int| 0 <= i < keys.len() ==> {
                    &&& #[trigger] contents(snapshot[2 * j]).contains_key(keys[i])
                    &&& contents(snapshot[2 * j])[keys[i]] == (values[i], BASELINE_GENERATION)
                }
        },
{
    let w = after_writes(v, StoreKind::Kv, id, keys, values, now);
    let u = StoreView { reload_pending: false, ..w };
    lemma_writes_contents(v, id, keys, values, now);
    assert(u.stores_of(StoreKind::Kv) =~= v.stores_of(StoreKind::Kv));
    let j = choose|j: int| 0 <= j < snapshot.len() / 2 && id_at(snapshot, j) == id;
    assert(aliased_pair(u, StoreKind::Kv, snapshot, j));
    assert forall|i: int| 0 <= i < keys.len() implies {
        &&& #[trigger] contents(snapshot[2 * j]).contains_key(keys[i])
        &&& contents(snapshot[2 * j])[keys[i]] == (values[i], BASELINE_GENERATION)
    } by {
        assert(w.items(StoreKind::Kv, id).contains_key(keys[i]));
        assert(u.items(StoreKind::Kv, id) == w.items(StoreKind::Kv, id));
    }
}

/// In a snapshot every store is found both under its id and under its name,
/// with the same items: those of its table.
pub proof fn lemma_snapshot_aliasing(v: StoreView, kind: StoreKind, snapshot: Seq<SnapshotStore>, id: Seq<char>)
    requires
        materialized(v, kind, snapshot),
        v.stores_of(kind).contains_key(id),
    ensures
        exists|j: int| {
            &&& 0 <= j < snapshot.len() / 2
            &&& #[trigger] id_at(snapshot, j) == id
            &&& snapshot[2 * j + 1].name@ == v.stores_of(kind)[id].name
            &&& contents(snapshot[2 * j]) == contents(snapshot[2 * j + 1])
            &&& contents(snapshot[2 * j]) == expected_contents(v, kind, id)
        },
{
    let j = choose|j: int| 0 <= j < snapshot.len() / 2 && id_at(snapshot, j) == id;
    assert(aliased_pair(v, kind, snapshot, j));
}

} // verus!
