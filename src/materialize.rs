use vstd::prelude::*;

use crate::keyed::{keyed, keys_unique, lemma_keyed_at};
use crate::model::{ItemView, StoreKind};
use crate::store::{item_pairs, DataStore, StoreView};

verus! {

/// The generation that every KV item starts at in a snapshot: a snapshot
/// keeps no history across rebuilds.
pub const BASELINE_GENERATION: u64 = 1;

/// One item of a store in a snapshot.
#[derive(Clone, Debug)]
pub struct SnapshotItem {
    pub key: String,
    pub value: Vec<u8>,
    pub generation: u64,
}

impl View for SnapshotItem {
    type V = (Seq<char>, (Seq<u8>, u64));

    open spec fn view(&self) -> (Seq<char>, (Seq<u8>, u64)) {
        (self.key@, (self.value@, self.generation))
    }
}

/// A store's items in a snapshot, under one of the names that the execution
/// engine may look the store up by.
#[derive(Clone, Debug)]
pub struct SnapshotStore {
    pub name: String,
    pub items: Vec<SnapshotItem>,
}

/// A point-in-time picture of every store, shaped for the execution engine:
/// for each kind, each store appears twice in a row, first under its id and
/// then under its name, with the same items.
#[derive(Clone, Debug)]
pub struct Snapshot {
    pub config: Vec<SnapshotStore>,
    pub kv: Vec<SnapshotStore>,
    pub secret: Vec<SnapshotStore>,
}

impl Snapshot {
    pub open spec fn stores(&self, kind: StoreKind) -> Seq<SnapshotStore> {
        match kind {
            StoreKind::Config => self.config@,
            StoreKind::Kv => self.kv@,
            StoreKind::Secret => self.secret@,
        }
    }
}

pub open spec fn snapshot_pairs(s: SnapshotStore) -> Seq<(Seq<char>, (Seq<u8>, u64))> {
    s.items@.map_values(|i: SnapshotItem| i@)
}

/// The items of a snapshot store, by key.
pub open spec fn contents(s: SnapshotStore) -> Map<Seq<char>, (Seq<u8>, u64)> {
    keyed(snapshot_pairs(s))
}

/// What store `id` of `kind` in state `v` contributes to a snapshot: its
/// items at the baseline generation, none where its table was never created.
pub open spec fn expected_contents(v: StoreView, kind: StoreKind, id: Seq<char>) -> Map<Seq<char>, (Seq<u8>, u64)> {
    v.items(kind, id).map_values(|it: ItemView| (it.value, BASELINE_GENERATION))
}

/// Whether `s` holds store `id` of `kind` at `v` exactly.
pub open spec fn holds_store(v: StoreView, kind: StoreKind, s: SnapshotStore, id: Seq<char>) -> bool {
    &&& keys_unique(snapshot_pairs(s))
    &&& contents(s) == expected_contents(v, kind, id)
}

/// The name of the first entry of the `j`-th pair of `s`: a store's id.
pub open spec fn id_at(s: Seq<SnapshotStore>, j: int) -> Seq<char> {
    s[2 * j].name@
}

/// Whether the pair of entries at `2 * j` and `2 * j + 1` of `s` is one store
/// of `kind` at `v`, under its id and then under its name.
pub open spec fn aliased_pair(v: StoreView, kind: StoreKind, s: Seq<SnapshotStore>, j: int) -> bool {
    let id = id_at(s, j);
    &&& v.stores_of(kind).contains_key(id)
    &&& s[2 * j + 1].name@ == v.stores_of(kind)[id].name
    &&& holds_store(v, kind, s[2 * j], id)
    &&& holds_store(v, kind, s[2 * j + 1], id)
}

/// Whether `s` is the snapshot of the stores of `kind` at `v`: every store
/// appears once as an aliased pair, and nothing else does.
pub open spec fn materialized(v: StoreView, kind: StoreKind, s: Seq<SnapshotStore>) -> bool {
    &&& s.len() % 2 == 0
    &&& forall|j: int| 0 <= j < s.len() / 2 ==> #[trigger] aliased_pair(v, kind, s, j)
    &&& forall|a: int, b: int| 0 <= a < s.len() / 2 && 0 <= b < s.len() / 2 && a != b
            ==> #[trigger] id_at(s, a) != #[trigger] id_at(s, b)
    &&& forall|id: Seq<char>| #[trigger] v.stores_of(kind).contains_key(id)
            ==> exists|j: int| 0 <= j < s.len() / 2 && id_at(s, j) == id
}

impl DataStore {
    /// The items of store `id` of `kind` as snapshot items.
    fn snapshot_items(&self, kind: StoreKind, id: &String) -> (r: Vec<SnapshotItem>)
        requires
            self.wf(),
        ensures
            keys_unique(r@.map_values(|i: SnapshotItem| i@)),
            keyed(r@.map_values(|i: SnapshotItem| i@)) == expected_contents(self@, kind, id@),
    {
        let items = self.list_items(kind, id);
        let mut out: Vec<SnapshotItem> = Vec::new();
        let mut i: usize = 0;
        while i < items.len()
            invariant
                i <= items@.len(),
                out@.len() == i,
                forall|j: int| 0 <= j < i ==> (#[trigger] out@[j])@ == (items@[j].0@, (items@[j].1.value@, BASELINE_GENERATION)),
            decreases items@.len() - i,
        {
            let (key, item) = &items[i];
            let value = item.value.clone();
            assert(value@ =~= item.value@);
            out.push(SnapshotItem { key: key.clone(), value, generation: BASELINE_GENERATION });
            i = i + 1;
        }
        proof {
            let ip = item_pairs(items@);
            let sp = out@.map_values(|i: SnapshotItem| i@);
            assert forall|a: int, b: int| 0 <= a < sp.len() && 0 <= b < sp.len() && a != b implies sp[a].0 != sp[b].0 by {
                assert(sp[a].0 == ip[a].0 && sp[b].0 == ip[b].0);
            }
            assert forall|k: Seq<char>| #[trigger] keyed(sp).contains_key(k) == keyed(ip).contains_key(k) by {
                if keyed(ip).contains_key(k) {
                    let j = choose|j: int| 0 <= j < ip.len() && ip[j].0 == k;
                    assert(sp[j].0 == k);
                }
                if keyed(sp).contains_key(k) {
                    let j = choose|j: int| 0 <= j < sp.len() && sp[j].0 == k;
                    assert(ip[j].0 == k);
                }
            }
            assert forall|k: Seq<char>| #[trigger] keyed(sp).contains_key(k)
                implies keyed(sp)[k] == (keyed(ip)[k].value, BASELINE_GENERATION) by {
                let j = choose|j: int| 0 <= j < sp.len() && sp[j].0 == k;
                lemma_keyed_at(sp, j);
                lemma_keyed_at(ip, j);
            }
            assert(keyed(sp) =~= expected_contents(self@, kind, id@));
        }
        out
    }

    /// The snapshot of the stores of `kind`.
    fn materialize_kind(&self, kind: StoreKind) -> (r: Vec<SnapshotStore>)
        requires
            self.wf(),
        ensures
            materialized(self@, kind, r@),
    {
        let mut out: Vec<SnapshotStore> = Vec::new();
        match &self.metadata {
            None => {
                assert(forall|id: Seq<char>| !#[trigger] self@.stores_of(kind).contains_key(id));
            },
            Some(m) => {
                let entries = m.entries_of(kind);
                let ghost pairs = entries.spec_pairs();
                proof {
                    assert(self@.stores_of(kind) =~= keyed(pairs));
                }
                let n = entries.len();
                let mut i: usize = 0;
                while i < n
                    invariant
                        self.wf(),
                        entries.wf(),
                        pairs == entries.spec_pairs(),
                        self@.stores_of(kind) == keyed(pairs),
                        n == pairs.len(),
                        i <= n,
                        out@.len() == 2 * i,
                        forall|j: int| 0 <= j < i ==> #[trigger] id_at(out@, j) == pairs[j].0,
                        forall|j: int| 0 <= j < i ==> #[trigger] aliased_pair(self@, kind, out@, j),
                    decreases n - i,
                {
                    let (id, meta) = entries.entry(i);
                    proof {
                        lemma_keyed_at(pairs, i as int);
                    }
                    let by_id = SnapshotStore { name: id.clone(), items: self.snapshot_items(kind, id) };
                    let by_name = SnapshotStore { name: meta.name.clone(), items: self.snapshot_items(kind, id) };
                    let ghost before = out@;
                    out.push(by_id);
                    out.push(by_name);
                    proof {
                        assert(out@[2 * i as int] == by_id);
                        assert(out@[2 * i + 1] == by_name);
                        assert forall|j: int| 0 <= j < i + 1 implies #[trigger] id_at(out@, j) == pairs[j].0 by {
                            if j < i {
                                assert(out@[2 * j] == before[2 * j]);
                                assert(id_at(before, j) == pairs[j].0);
                            } else {
                                assert(out@[2 * j] == by_id);
                            }
                        }
                        assert forall|j: int| 0 <= j < i + 1 implies #[trigger] aliased_pair(self@, kind, out@, j) by {
                            if j < i {
                                assert(out@[2 * j] == before[2 * j]);
                                assert(out@[2 * j + 1] == before[2 * j + 1]);
                                assert(aliased_pair(self@, kind, before, j));
                            }
                        }
                    }
                    i = i + 1;
                }
                proof {
                    assert forall|a: int, b: int| 0 <= a < out@.len() / 2 && 0 <= b < out@.len() / 2 && a != b
                        implies id_at(out@, a) != id_at(out@, b) by {
                        assert(id_at(out@, a) == pairs[a].0);
                        assert(id_at(out@, b) == pairs[b].0);
                    }
                    assert forall|id: Seq<char>| #[trigger] self@.stores_of(kind).contains_key(id)
                        implies exists|j: int| 0 <= j < out@.len() / 2 && id_at(out@, j) == id by {
                        let j = choose|j: int| 0 <= j < pairs.len() && pairs[j].0 == id;
                        assert(id_at(out@, j) == pairs[j].0);
                    }
                }
            },
        }
        out
    }

    /// Reads every store into a snapshot for the execution engine. It
    /// changes nothing and may be taken any number of times.
    pub fn materialize(&self) -> (r: Snapshot)
        requires
            self.wf(),
        ensures
            forall|k: StoreKind| #[trigger] materialized(self@, k, r.stores(k)),
    {
        let r = Snapshot {
            config: self.materialize_kind(StoreKind::Config),
            kv: self.materialize_kind(StoreKind::Kv),
            secret: self.materialize_kind(StoreKind::Secret),
        };
        assert forall|k: StoreKind| #[trigger] materialized(self@, k, r.stores(k)) by {
            match k {
                StoreKind::Config => {},
                StoreKind::Kv => {},
                StoreKind::Secret => {},
            }
        }
        r
    }
}

} // verus!
