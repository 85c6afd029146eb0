use vstd::prelude::*;

use crate::keyed::{keyed, keys_unique, Entries};
use crate::model::{Error, ErrorKind, MetaView, StoreDescriptor, StoreKind, StoreMetadata};

verus! {

/// The singleton record of which stores exist: for each kind, a map from
/// store id to the store's metadata. It is read and rewritten as a whole.
#[derive(Clone, Debug)]
pub struct Metadata {
    pub(crate) config_stores: Entries<StoreMetadata>,
    pub(crate) kv_stores: Entries<StoreMetadata>,
    pub(crate) secret_stores: Entries<StoreMetadata>,
}

/// The descriptors of `s` as (id, metadata) pairs.
pub open spec fn descriptor_pairs(s: Seq<StoreDescriptor>) -> Seq<(Seq<char>, MetaView)> {
    s.map_values(|d: StoreDescriptor| d@)
}

impl Metadata {
    pub open(crate) spec fn entries(&self, kind: StoreKind) -> Entries<StoreMetadata> {
        match kind {
            StoreKind::Config => self.config_stores,
            StoreKind::Kv => self.kv_stores,
            StoreKind::Secret => self.secret_stores,
        }
    }

    pub open(crate) spec fn wf(&self) -> bool {
        &&& self.config_stores.wf()
        &&& self.kv_stores.wf()
        &&& self.secret_stores.wf()
    }

    /// The stores of `kind`, by id.
    pub open spec fn stores(&self, kind: StoreKind) -> Map<Seq<char>, MetaView> {
        self.entries(kind)@
    }

    /// The record that a database holds before any store was made.
    pub fn new() -> (r: Metadata)
        ensures
            r.wf(),
            forall|k: StoreKind| #[trigger] r.stores(k) == Map::<Seq<char>, MetaView>::empty(),
    {
        Metadata { config_stores: Entries::new(), kv_stores: Entries::new(), secret_stores: Entries::new() }
    }

    pub(crate) fn entries_of(&self, kind: StoreKind) -> (r: &Entries<StoreMetadata>)
        ensures
            *r == self.entries(kind),
    {
        match kind {
            StoreKind::Config => &self.config_stores,
            StoreKind::Kv => &self.kv_stores,
            StoreKind::Secret => &self.secret_stores,
        }
    }

    /// All stores of `kind`, each once.
    pub fn list(&self, kind: StoreKind) -> (r: Vec<StoreDescriptor>)
        requires
            self.wf(),
        ensures
            keys_unique(descriptor_pairs(r@)),
            keyed(descriptor_pairs(r@)) == self.stores(kind),
    {
        let entries = self.entries_of(kind);
        let mut out: Vec<StoreDescriptor> = Vec::new();
        let n = entries.len();
        let mut i: usize = 0;
        while i < n
            invariant
                n == entries.spec_pairs().len(),
                i <= n,
                out@.len() == i,
                forall|j: int| 0 <= j < i ==> #[trigger] out@[j]@ == entries.spec_pairs()[j],
            decreases n - i,
        {
            let (id, meta) = entries.entry(i);
            out.push(StoreDescriptor::from_metadata(id, meta));
            i = i + 1;
        }
        assert(descriptor_pairs(out@) =~= entries.spec_pairs());
        out
    }

    /// The store of `kind` with id `id`.
    pub fn get(&self, kind: StoreKind, id: &String) -> (r: Result<StoreDescriptor, Error>)
        requires
            self.wf(),
        ensures
            r is Ok == self.stores(kind).contains_key(id@),
            r is Ok ==> r->Ok_0@ == (id@, self.stores(kind)[id@]),
            r is Err ==> r->Err_0.kind == ErrorKind::NotFound,
    {
        match self.entries_of(kind).get(id) {
            Some(meta) => Ok(StoreDescriptor::from_metadata(id, meta)),
            None => Err(not_found(kind)),
        }
    }

    /// Records the store `id` of `kind`, replacing what was recorded under
    /// that id.
    pub fn insert(&mut self, kind: StoreKind, id: String, meta: StoreMetadata)
        requires
            old(self).wf(),
        ensures
            final(self).wf(),
            final(self).stores(kind) == old(self).stores(kind).insert(id@, meta@),
            forall|k: StoreKind| k != kind ==> #[trigger] final(self).stores(k) == old(self).stores(k),
    {
        match kind {
            StoreKind::Config => self.config_stores.insert(id, meta),
            StoreKind::Kv => self.kv_stores.insert(id, meta),
            StoreKind::Secret => self.secret_stores.insert(id, meta),
        }
    }

    /// Takes the store `id` of `kind` out of the record; fails with NotFound,
    /// changing nothing, where there is none.
    pub fn remove(&mut self, kind: StoreKind, id: &String) -> (r: Result<StoreMetadata, Error>)
        requires
            old(self).wf(),
        ensures
            final(self).wf(),
            r is Ok == old(self).stores(kind).contains_key(id@),
            r is Ok ==> r->Ok_0@ == old(self).stores(kind)[id@],
            r is Err ==> r->Err_0.kind == ErrorKind::NotFound,
            final(self).stores(kind) == old(self).stores(kind).remove(id@),
            forall|k: StoreKind| k != kind ==> #[trigger] final(self).stores(k) == old(self).stores(k),
    {
        let removed = match kind {
            StoreKind::Config => self.config_stores.remove(id),
            StoreKind::Kv => self.kv_stores.remove(id),
            StoreKind::Secret => self.secret_stores.remove(id),
        };
        match removed {
            Some(meta) => Ok(meta),
            None => Err(not_found(kind)),
        }
    }
}

/// The error for a store of `kind` that does not exist.
pub fn not_found(kind: StoreKind) -> (r: Error)
    ensures
        r.kind == ErrorKind::NotFound,
{
    match kind {
        StoreKind::Config => Error::new(ErrorKind::NotFound, "Config store not found"),
        StoreKind::Kv => Error::new(ErrorKind::NotFound, "KV store not found"),
        StoreKind::Secret => Error::new(ErrorKind::NotFound, "Secret store not found"),
    }
}

} // verus!
