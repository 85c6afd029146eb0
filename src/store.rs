use vstd::prelude::*;

use crate::keyed::{keyed, keys_unique, Entries};
use crate::keys::{is_valid_kv_key, valid_kv_key};
use crate::model::{
    new_meta, Error, ErrorKind, ItemRecord, ItemView, MetaView, StoreDescriptor, StoreKind,
    StoreMetadata,
};
use crate::registry::{descriptor_pairs, not_found, Metadata};
use crate::reload::ReloadSignal;
use crate::support::{new_store_id, now_millis};

verus! {

/// The observable state of the data layer: the registry of stores by kind
/// and id, the item tables that have been created, and whether a reload is
/// pending.
pub ghost struct StoreView {
    pub stores: Map<(StoreKind, Seq<char>), MetaView>,
    pub tables: Map<(StoreKind, Seq<char>), Map<Seq<char>, ItemView>>,
    pub reload_pending: bool,
}

impl StoreView {
    /// The stores of `kind`, by id.
    pub open spec fn stores_of(self, kind: StoreKind) -> Map<Seq<char>, MetaView> {
        Map::new(
            |id: Seq<char>| self.stores.contains_key((kind, id)),
            |id: Seq<char>| self.stores[(kind, id)],
        )
    }

    /// The items of store `id` of `kind`; a table that was never created
    /// holds none.
    pub open spec fn items(self, kind: StoreKind, id: Seq<char>) -> Map<Seq<char>, ItemView> {
        if self.tables.contains_key((kind, id)) {
            self.tables[(kind, id)]
        } else {
            Map::empty()
        }
    }
}

/// Whether changes to stores of `kind` are seen by the execution engine at
/// run time, and so raise the reload signal.
pub open spec fn raises_reload(kind: StoreKind) -> bool {
    kind != StoreKind::Config
}

/// The state after store `id` of `kind` was recorded with `meta`.
pub open spec fn after_create(v: StoreView, kind: StoreKind, id: Seq<char>, meta: MetaView) -> StoreView {
    StoreView {
        stores: v.stores.insert((kind, id), meta),
        tables: v.tables,
        reload_pending: v.reload_pending || raises_reload(kind),
    }
}

/// The state after store `id` of `kind` and its table were dropped together.
pub open spec fn after_delete(v: StoreView, kind: StoreKind, id: Seq<char>) -> StoreView {
    StoreView {
        stores: v.stores.remove((kind, id)),
        tables: v.tables.remove((kind, id)),
        reload_pending: v.reload_pending || raises_reload(kind),
    }
}

/// The item that a write of `value` under `key` at `now` leaves in `table`:
/// an overwrite keeps the time of creation.
pub open spec fn written_item(table: Map<Seq<char>, ItemView>, key: Seq<char>, value: Seq<u8>, now: i64) -> ItemView {
    ItemView {
        value,
        created_at: if table.contains_key(key) { table[key].created_at } else { now },
        updated_at: now,
    }
}

/// The state after `value` was written under `key` in store `id` of `kind`;
/// the table is created by its first write.
pub open spec fn after_write(
    v: StoreView,
    kind: StoreKind,
    id: Seq<char>,
    key: Seq<char>,
    value: Seq<u8>,
    now: i64,
) -> StoreView {
    StoreView {
        stores: v.stores,
        tables: v.tables.insert((kind, id), v.items(kind, id).insert(key, written_item(v.items(kind, id), key, value, now))),
        reload_pending: v.reload_pending || raises_reload(kind),
    }
}

/// The state after `value` was written under `key` in store `id` of `kind`
/// at `now` as a new item, whatever stood there before.
pub open spec fn after_replace(
    v: StoreView,
    kind: StoreKind,
    id: Seq<char>,
    key: Seq<char>,
    value: Seq<u8>,
    now: i64,
) -> StoreView {
    StoreView {
        stores: v.stores,
        tables: v.tables.insert((kind, id), v.items(kind, id).insert(key, ItemView { value, created_at: now, updated_at: now })),
        reload_pending: v.reload_pending || raises_reload(kind),
    }
}

/// The state after `key` was removed from store `id` of `kind`; the table
/// stays, possibly empty.
pub open spec fn after_item_delete(v: StoreView, kind: StoreKind, id: Seq<char>, key: Seq<char>) -> StoreView {
    StoreView {
        stores: v.stores,
        tables: v.tables.insert((kind, id), v.items(kind, id).remove(key)),
        reload_pending: v.reload_pending || raises_reload(kind),
    }
}

/// How many ids `DataStore::create_store` draws before it gives up.
pub const ID_DRAWS: usize = 3;

pub open(crate) spec fn tables_wf(t: Entries<Entries<ItemRecord>>) -> bool {
    &&& t.wf()
    &&& forall|v: Entries<ItemRecord>| #[trigger] t.holds(v) ==> v.wf()
}

/// The items of `s` as (key, item) pairs.
pub open spec fn item_pairs(s: Seq<(String, ItemRecord)>) -> Seq<(Seq<char>, ItemView)> {
    s.map_values(|p: (String, ItemRecord)| (p.0@, p.1@))
}

/// The error for an item of a store of `kind` that does not exist.
pub fn item_not_found(kind: StoreKind) -> (r: Error)
    ensures
        r.kind == ErrorKind::NotFound,
{
    match kind {
        StoreKind::Config => Error::new(ErrorKind::NotFound, "Config store item not found"),
        StoreKind::Kv => Error::new(ErrorKind::NotFound, "KV store item not found"),
        StoreKind::Secret => Error::new(ErrorKind::NotFound, "Secret not found"),
    }
}

/// The data layer: the metadata record, which may not exist yet, the item
/// tables of each kind keyed by store id, and the reload signal. Each
/// mutation is one unit of work: it either succeeds whole or fails with the
/// state as it was.
#[derive(Clone, Debug)]
pub struct DataStore {
    pub(crate) metadata: Option<Metadata>,
    pub(crate) config_tables: Entries<Entries<ItemRecord>>,
    pub(crate) kv_tables: Entries<Entries<ItemRecord>>,
    pub(crate) secret_tables: Entries<Entries<ItemRecord>>,
    pub(crate) reload: ReloadSignal,
}

impl View for DataStore {
    type V = StoreView;

    open(crate) spec fn view(&self) -> StoreView {
        StoreView {
            stores: Map::new(
                |p: (StoreKind, Seq<char>)| self.kind_stores(p.0).contains_key(p.1),
                |p: (StoreKind, Seq<char>)| self.kind_stores(p.0)[p.1],
            ),
            tables: Map::new(
                |p: (StoreKind, Seq<char>)| self.table_entries(p.0)@.contains_key(p.1),
                |p: (StoreKind, Seq<char>)| self.table_entries(p.0)@[p.1],
            ),
            reload_pending: self.reload@,
        }
    }
}

impl DataStore {
    pub open(crate) spec fn kind_stores(&self, kind: StoreKind) -> Map<Seq<char>, MetaView> {
        match self.metadata {
            Some(m) => m.stores(kind),
            None => Map::empty(),
        }
    }

    pub open(crate) spec fn table_entries(&self, kind: StoreKind) -> Entries<Entries<ItemRecord>> {
        match kind {
            StoreKind::Config => self.config_tables,
            StoreKind::Kv => self.kv_tables,
            StoreKind::Secret => self.secret_tables,
        }
    }

    pub open(crate) spec fn wf(&self) -> bool {
        &&& (self.metadata matches Some(m) ==> m.wf())
        &&& tables_wf(self.config_tables)
        &&& tables_wf(self.kv_tables)
        &&& tables_wf(self.secret_tables)
    }

    proof fn lemma_stores_of(&self, kind: StoreKind)
        ensures
            self@.stores_of(kind) == self.kind_stores(kind),
    {
        assert(self@.stores_of(kind) =~= self.kind_stores(kind));
    }

    /// A data layer with no metadata record and no tables.
    pub fn new() -> (r: DataStore)
        ensures
            r.wf(),
            r@ == (StoreView { stores: Map::empty(), tables: Map::empty(), reload_pending: false }),
    {
        let r = DataStore {
            metadata: None,
            config_tables: Entries::new(),
            kv_tables: Entries::new(),
            secret_tables: Entries::new(),
            reload: ReloadSignal::new(),
        };
        assert(r@.stores =~= Map::empty());
        assert(r@.tables =~= Map::empty());
        r
    }

    fn tables_of(&self, kind: StoreKind) -> (r: &Entries<Entries<ItemRecord>>)
        ensures
            *r == self.table_entries(kind),
    {
        match kind {
            StoreKind::Config => &self.config_tables,
            StoreKind::Kv => &self.kv_tables,
            StoreKind::Secret => &self.secret_tables,
        }
    }

    fn tables_mut(&mut self, kind: StoreKind) -> (r: &mut Entries<Entries<ItemRecord>>)
        ensures
            *r == old(self).table_entries(kind),
            final(self).table_entries(kind) == *final(r),
            final(self).metadata == old(self).metadata,
            final(self).reload == old(self).reload,
            kind != StoreKind::Config ==> final(self).config_tables == old(self).config_tables,
            kind != StoreKind::Kv ==> final(self).kv_tables == old(self).kv_tables,
            kind != StoreKind::Secret ==> final(self).secret_tables == old(self).secret_tables,
    {
        match kind {
            StoreKind::Config => &mut self.config_tables,
            StoreKind::Kv => &mut self.kv_tables,
            StoreKind::Secret => &mut self.secret_tables,
        }
    }

    /// All stores of `kind`, each once; none where the metadata record was
    /// never written.
    pub fn list_stores(&self, kind: StoreKind) -> (r: Vec<StoreDescriptor>)
        requires
            self.wf(),
        ensures
            keys_unique(descriptor_pairs(r@)),
            keyed(descriptor_pairs(r@)) == self@.stores_of(kind),
    {
        proof {
            self.lemma_stores_of(kind);
        }
        match &self.metadata {
            Some(m) => m.list(kind),
            None => {
                let r: Vec<StoreDescriptor> = Vec::new();
                assert(keyed(descriptor_pairs(r@)) =~= Map::<Seq<char>, MetaView>::empty());
                r
            },
        }
    }

    /// The store of `kind` with id `id`; NotFound where the metadata record
    /// is absent or holds no such id.
    pub fn get_store(&self, kind: StoreKind, id: &String) -> (r: Result<StoreDescriptor, Error>)
        requires
            self.wf(),
        ensures
            r is Ok == self@.stores_of(kind).contains_key(id@),
            r is Ok ==> r->Ok_0@ == (id@, self@.stores_of(kind)[id@]),
            r is Err ==> r->Err_0.kind == ErrorKind::NotFound,
    {
        proof {
            self.lemma_stores_of(kind);
        }
        match &self.metadata {
            Some(m) => m.get(kind, id),
            None => Err(not_found(kind)),
        }
    }

    /// Records store `id` of `kind` with `meta` as it stands, as when the
    /// data layer is loaded from disk; the reload signal is left alone.
    pub fn restore_store(&mut self, kind: StoreKind, id: String, meta: StoreMetadata)
        requires
            old(self).wf(),
        ensures
            final(self).wf(),
            final(self)@ == (StoreView { stores: old(self)@.stores.insert((kind, id@), meta@), ..old(self)@ }),
    {
        let ghost key = (kind, id@);
        let ghost mv = meta@;
        let mut m = match self.metadata.take() {
            Some(m) => m,
            None => Metadata::new(),
        };
        m.insert(kind, id, meta);
        self.metadata = Some(m);
        proof {
            assert forall|k: StoreKind| k != kind implies #[trigger] self.kind_stores(k) == old(self).kind_stores(k) by {
                if old(self).metadata is None {
                    assert(self.kind_stores(k) =~= Map::empty());
                }
            }
            if old(self).metadata is None {
                assert(self.kind_stores(kind) =~= old(self).kind_stores(kind).insert(key.1, mv));
            }
            assert(self@.stores =~= old(self)@.stores.insert(key, mv));
            assert(self@.tables =~= old(self)@.tables);
        }
    }

    /// Records a new store of `kind` named `name` under `id`, made at `now`,
    /// writing the metadata record as a whole (and creating it where it did
    /// not exist). An id that is already recorded for `kind` is refused with
    /// Conflict, and nothing changes.
    pub fn create_store_with(&mut self, kind: StoreKind, name: String, id: String, now: i64) -> (r: Result<StoreDescriptor, Error>)
        requires
            old(self).wf(),
        ensures
            final(self).wf(),
            r is Ok == !old(self)@.stores_of(kind).contains_key(id@),
            r is Ok ==> r->Ok_0@ == (id@, new_meta(kind, name@, now)),
            r is Ok ==> final(self)@ == after_create(old(self)@, kind, id@, new_meta(kind, name@, now)),
            r is Err ==> final(self)@ == old(self)@ && r->Err_0.kind == ErrorKind::Conflict,
    {
        if self.get_store(kind, &id).is_ok() {
            return Err(Error::new(ErrorKind::Conflict, "A store with this id already exists"));
        }
        let meta = StoreMetadata {
            name,
            created_at: now,
            updated_at: if kind == StoreKind::Secret { None } else { Some(now) },
        };
        let r = StoreDescriptor::from_metadata(&id, &meta);
        self.restore_store(kind, id, meta);
        if kind != StoreKind::Config {
            self.reload.raise();
        }
        proof {
            let v = after_create(old(self)@, kind, r@.0, r@.1);
            assert(self@.stores =~= v.stores);
            assert(self@.tables =~= v.tables);
        }
        Ok(r)
    }

    /// Creates a store of `kind` named `name` at the current time, under a
    /// freshly drawn id that no store of `kind` has. An id that is taken is
    /// drawn again, up to `ID_DRAWS` times in all; where every draw was
    /// taken the call fails with Internal and nothing changes.
    pub fn create_store(&mut self, kind: StoreKind, name: String) -> (r: Result<StoreDescriptor, Error>)
        requires
            old(self).wf(),
        ensures
            final(self).wf(),
            r is Ok ==> !old(self)@.stores_of(kind).contains_key(r->Ok_0.id@),
            r is Ok ==> r->Ok_0.id@.len() == 26,
            r is Ok ==> r->Ok_0@.1 == new_meta(kind, name@, r->Ok_0.created_at),
            r is Ok ==> final(self)@ == after_create(old(self)@, kind, r->Ok_0.id@, r->Ok_0@.1),
            r is Err ==> final(self)@ == old(self)@ && r->Err_0.kind == ErrorKind::Internal,
    {
        let now = now_millis();
        let mut draws: usize = 0;
        while draws < ID_DRAWS
            invariant
                self.wf(),
                self@ == old(self)@,
            decreases ID_DRAWS - draws,
        {
            let id = new_store_id();
            match self.create_store_with(kind, name.clone(), id, now) {
                Ok(d) => {
                    return Ok(d);
                },
                Err(_) => {},
            }
            draws = draws + 1;
        }
        Err(Error::new(ErrorKind::Internal, "Could not draw a fresh store id"))
    }

    /// Deletes store `id` of `kind` and drops its item table in the same unit
    /// of work; NotFound, with nothing changed, where there is no such store.
    pub fn delete_store(&mut self, kind: StoreKind, id: &String) -> (r: Result<(), Error>)
        requires
            old(self).wf(),
        ensures
            final(self).wf(),
            r is Ok == old(self)@.stores_of(kind).contains_key(id@),
            r is Ok ==> final(self)@ == after_delete(old(self)@, kind, id@),
            r is Err ==> final(self)@ == old(self)@ && r->Err_0.kind == ErrorKind::NotFound,
    {
        proof {
            self.lemma_stores_of(kind);
        }
        let mut m = match self.metadata.take() {
            Some(m) => m,
            None => {
                return Err(not_found(kind));
            },
        };
        match m.remove(kind, id) {
            Ok(_) => {},
            Err(e) => {
                self.metadata = Some(m);
                proof {
                    assert forall|k: StoreKind| #[trigger] self.kind_stores(k) == old(self).kind_stores(k) by {
                        if k == kind {
                            assert(self.kind_stores(k) =~= old(self).kind_stores(k));
                        }
                    }
                    assert(self@.stores =~= old(self)@.stores);
                    assert(self@.tables =~= old(self)@.tables);
                }
                return Err(e);
            },
        }
        self.metadata = Some(m);

        {
            let tables = self.tables_mut(kind);
            let _ = tables.remove(id);
        }
        if kind != StoreKind::Config {
            self.reload.raise();
        }
        proof {
            let v = after_delete(old(self)@, kind, id@);
            assert(self@.stores =~= v.stores);
            assert(self@.tables =~= v.tables);
        }
        Ok(())
    }

    /// The item table of store `id` of `kind`, where it was created.
    fn table(&self, kind: StoreKind, id: &String) -> (r: Option<&Entries<ItemRecord>>)
        requires
            self.wf(),
        ensures
            r.is_some() == self@.tables.contains_key((kind, id@)),
            r.is_some() ==> r.unwrap().wf() && r.unwrap()@ == self@.items(kind, id@),
    {
        self.tables_of(kind).get(id)
    }

    /// The items of store `id` of `kind`, each once. A table that was never
    /// created lists as empty, whether or not the store exists.
    pub fn list_items(&self, kind: StoreKind, id: &String) -> (r: Vec<(String, ItemRecord)>)
        requires
            self.wf(),
        ensures
            keys_unique(item_pairs(r@)),
            keyed(item_pairs(r@)) == self@.items(kind, id@),
    {
        let mut out: Vec<(String, ItemRecord)> = Vec::new();
        match self.table(kind, id) {
            None => {
                assert(keyed(item_pairs(out@)) =~= Map::<Seq<char>, ItemView>::empty());
            },
            Some(table) => {
                let n = table.len();
                let mut i: usize = 0;
                while i < n
                    invariant
                        n == table.spec_pairs().len(),
                        i <= n,
                        out@.len() == i,
                        forall|j: int| 0 <= j < i ==> (#[trigger] out@[j].0@, out@[j].1@) == table.spec_pairs()[j],
                    decreases n - i,
                {
                    let (key, item) = table.entry(i);
                    out.push((key.clone(), item.duplicate()));
                    i = i + 1;
                }
                assert(item_pairs(out@) =~= table.spec_pairs());
            },
        }
        out
    }

    /// The item under `key` in store `id` of `kind`; NotFound where the table
    /// was never created or holds no such key.
    pub fn get_item(&self, kind: StoreKind, id: &String, key: &String) -> (r: Result<ItemRecord, Error>)
        requires
            self.wf(),
        ensures
            r is Ok == self@.items(kind, id@).contains_key(key@),
            r is Ok ==> r->Ok_0@ == self@.items(kind, id@)[key@],
            r is Err ==> r->Err_0.kind == ErrorKind::NotFound,
    {
        match self.table(kind, id) {
            Some(table) => match table.get(key) {
                Some(item) => Ok(item.duplicate()),
                None => Err(item_not_found(kind)),
            },
            None => Err(item_not_found(kind)),
        }
    }

    /// Puts `item` under `key` in store `id` of `kind` as it stands, creating
    /// the table where needed, as when the data layer is loaded from disk;
    /// the reload signal is left alone.
    pub fn restore_item(&mut self, kind: StoreKind, id: &String, key: String, item: ItemRecord)
        requires
            old(self).wf(),
        ensures
            final(self).wf(),
            final(self)@ == (StoreView {
                tables: old(self)@.tables.insert((kind, id@), old(self)@.items(kind, id@).insert(key@, item@)),
                ..old(self)@
            }),
    {
        let ghost old_items = self@.items(kind, id@);
        let ghost k = key@;
        let ghost iv = item@;
        {
            let tables = self.tables_mut(kind);
            let mut table = match tables.remove(id) {
                Some(t) => t,
                None => Entries::new(),
            };
            proof {
                assert(table@ == old_items);
            }
            table.insert(key, item);
            tables.insert(id.clone(), table);
        }
        proof {
            assert(self@.stores =~= old(self)@.stores);
            assert(self@.tables =~= old(self)@.tables.insert((kind, id@), old_items.insert(k, iv)));
        }
    }

    /// Writes `value` under `key` in store `id` of `kind` at time `now`,
    /// creating the table on its first write; an overwrite keeps the time
    /// the item was created. A KV key that the execution engine cannot hold
    /// is refused with Validation, and nothing changes.
    pub fn write_item_at(&mut self, kind: StoreKind, id: &String, key: String, value: Vec<u8>, now: i64) -> (r: Result<ItemRecord, Error>)
        requires
            old(self).wf(),
        ensures
            final(self).wf(),
            r is Err == (kind == StoreKind::Kv && !valid_kv_key(key@)),
            r is Ok ==> r->Ok_0@ == written_item(old(self)@.items(kind, id@), key@, value@, now),
            r is Ok ==> final(self)@ == after_write(old(self)@, kind, id@, key@, value@, now),
            r is Err ==> final(self)@ == old(self)@ && r->Err_0.kind == ErrorKind::Validation,
    {
        if kind == StoreKind::Kv && !is_valid_kv_key(&key) {
            return Err(Error::new(ErrorKind::Validation, "Invalid KV store key"));
        }
        let created_at = match self.table(kind, id) {
            Some(table) => match table.get(&key) {
                Some(item) => item.created_at,
                None => now,
            },
            None => now,
        };
        let item = ItemRecord { value, created_at, updated_at: now };
        let r = item.duplicate();
        self.restore_item(kind, id, key, item);
        if kind != StoreKind::Config {
            self.reload.raise();
        }
        proof {
            let v = after_write(old(self)@, kind, id@, key@, r@.value, now);
            assert(self@.stores =~= v.stores);
            assert(self@.tables =~= v.tables);
        }
        Ok(r)
    }

    /// Writes `value` under `key` in store `id` of `kind` at the current
    /// time; see `write_item_at`.
    pub fn upsert_item(&mut self, kind: StoreKind, id: &String, key: String, value: Vec<u8>) -> (r: Result<ItemRecord, Error>)
        requires
            old(self).wf(),
        ensures
            final(self).wf(),
            r is Err == (kind == StoreKind::Kv && !valid_kv_key(key@)),
            r is Ok ==> r->Ok_0@ == written_item(old(self)@.items(kind, id@), key@, value@, r->Ok_0.updated_at),
            r is Ok ==> final(self)@ == after_write(old(self)@, kind, id@, key@, value@, r->Ok_0.updated_at),
            r is Err ==> final(self)@ == old(self)@ && r->Err_0.kind == ErrorKind::Validation,
    {
        let now = now_millis();
        self.write_item_at(kind, id, key, value, now)
    }

    /// Removes `key` from store `id` of `kind`. A missing key is NotFound for
    /// every kind, whether or not the table exists, and changes nothing.
    pub fn delete_item(&mut self, kind: StoreKind, id: &String, key: &String) -> (r: Result<(), Error>)
        requires
            old(self).wf(),
        ensures
            final(self).wf(),
            r is Ok == old(self)@.items(kind, id@).contains_key(key@),
            r is Ok ==> final(self)@ == after_item_delete(old(self)@, kind, id@, key@),
            r is Err ==> final(self)@ == old(self)@ && r->Err_0.kind == ErrorKind::NotFound,
    {
        let present = match self.table(kind, id) {
            Some(table) => table.contains(key),
            None => false,
        };
        if !present {
            return Err(item_not_found(kind));
        }
        let ghost old_items = self@.items(kind, id@);
        {
            let tables = self.tables_mut(kind);
            let mut table = match tables.remove(id) {
                Some(t) => t,
                None => Entries::new(),
            };
            proof {
                assert(table@ == old_items);
            }
            let _ = table.remove(key);
            tables.insert(id.clone(), table);
        }
        if kind != StoreKind::Config {
            self.reload.raise();
        }
        proof {
            let v = after_item_delete(old(self)@, kind, id@, key@);
            assert(self@.stores =~= v.stores);
            assert(self@.tables =~= v.tables);
        }
        Ok(())
    }

    /// Whether a change is pending for the execution side, clearing it.
    pub fn take_reload(&mut self) -> (r: bool)
        requires
            old(self).wf(),
        ensures
            final(self).wf(),
            r == old(self)@.reload_pending,
            final(self)@ == (StoreView { reload_pending: false, ..old(self)@ }),
    {
        let r = self.reload.take();
        proof {
            assert(self@.stores =~= old(self)@.stores);
            assert(self@.tables =~= old(self)@.tables);
        }
        r
    }
}

} // verus!
