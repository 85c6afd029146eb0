use vstd::prelude::*;

use crate::keyed::{keyed, keys_unique};
use crate::model::{Error, ErrorKind, ItemRecord, ItemView, StoreKind};
use crate::store::{after_replace, after_write, item_pairs, written_item, DataStore};
use crate::support::{now_millis, sha256, sha256_of};

verus! {

/// What is shown of a secret: its name, a digest of its value that tells
/// whether the value changed without revealing it, and its creation time.
#[derive(Clone, Debug)]
pub struct SecretInfo {
    pub name: String,
    pub digest: Vec<u8>,
    pub created_at: i64,
}

impl View for SecretInfo {
    type V = (Seq<char>, (Seq<u8>, i64));

    open spec fn view(&self) -> (Seq<char>, (Seq<u8>, i64)) {
        (self.name@, (self.digest@, self.created_at))
    }
}

/// What is shown of a stored secret item.
pub open spec fn shown(item: ItemView) -> (Seq<u8>, i64) {
    (sha256_of(item.value), item.created_at)
}

/// The secrets of `s` as (name, shown) pairs.
pub open spec fn secret_pairs(s: Seq<SecretInfo>) -> Seq<(Seq<char>, (Seq<u8>, i64))> {
    s.map_values(|i: SecretInfo| i@)
}

impl SecretInfo {
    /// The information shown of the secret `name` stored as `item`.
    pub fn of(name: &String, item: &ItemRecord) -> (r: SecretInfo)
        ensures
            r@ == (name@, shown(item@)),
            r.digest@.len() == 32,
    {
        SecretInfo { name: name.clone(), digest: sha256(&item.value), created_at: item.created_at }
    }
}

impl DataStore {
    /// Creates the secret `name` in store `id` at time `now`, refusing with
    /// Conflict, and changing nothing, where the name is already taken.
    pub fn create_secret_at(&mut self, id: &String, name: String, value: Vec<u8>, now: i64) -> (r: Result<ItemRecord, Error>)
        requires
            old(self).wf(),
        ensures
            final(self).wf(),
            r is Ok == !old(self)@.items(StoreKind::Secret, id@).contains_key(name@),
            r is Ok ==> r->Ok_0@ == written_item(old(self)@.items(StoreKind::Secret, id@), name@, value@, now),
            r is Ok ==> final(self)@ == after_write(old(self)@, StoreKind::Secret, id@, name@, value@, now),
            r is Err ==> final(self)@ == old(self)@ && r->Err_0.kind == ErrorKind::Conflict,
    {
        let taken = self.get_item(StoreKind::Secret, id, &name).is_ok();
        if taken {
            return Err(Error::new(ErrorKind::Conflict, "Secret with this name already exists. Use PUT to recreate it."));
        }
        self.write_item_at(StoreKind::Secret, id, name, value, now)
    }

    /// Creates the secret `name` in store `id` at the current time; see
    /// `create_secret_at`.
    pub fn create_secret(&mut self, id: &String, name: String, value: Vec<u8>) -> (r: Result<ItemRecord, Error>)
        requires
            old(self).wf(),
        ensures
            final(self).wf(),
            r is Ok == !old(self)@.items(StoreKind::Secret, id@).contains_key(name@),
            r is Ok ==> r->Ok_0@ == written_item(old(self)@.items(StoreKind::Secret, id@), name@, value@, r->Ok_0.updated_at),
            r is Ok ==> final(self)@ == after_write(old(self)@, StoreKind::Secret, id@, name@, value@, r->Ok_0.updated_at),
            r is Err ==> final(self)@ == old(self)@ && r->Err_0.kind == ErrorKind::Conflict,
    {
        let now = now_millis();
        self.create_secret_at(id, name, value, now)
    }

    /// Writes the secret `name` in store `id` at time `now` whether or not it
    /// exists: the explicit overwrite, which skips the check that
    /// `create_secret_at` makes. The secret is made anew, so its creation time
    /// is `now`.
    pub fn replace_secret_at(&mut self, id: &String, name: String, value: Vec<u8>, now: i64) -> (r: ItemRecord)
        requires
            old(self).wf(),
        ensures
            final(self).wf(),
            r@ == (ItemView { value: value@, created_at: now, updated_at: now }),
            final(self)@ == after_replace(old(self)@, StoreKind::Secret, id@, name@, value@, now),
    {
        let item = ItemRecord { value, created_at: now, updated_at: now };
        let r = item.duplicate();
        self.restore_item(StoreKind::Secret, id, name, item);
        self.reload.raise();
        proof {
            let v = after_replace(old(self)@, StoreKind::Secret, id@, name@, r@.value, now);
            assert(self@.stores =~= v.stores);
            assert(self@.tables =~= v.tables);
        }
        r
    }

    /// Writes the secret `name` in store `id` at the current time whether or
    /// not it exists; see `replace_secret_at`.
    pub fn replace_secret(&mut self, id: &String, name: String, value: Vec<u8>) -> (r: ItemRecord)
        requires
            old(self).wf(),
        ensures
            final(self).wf(),
            r@ == (ItemView { value: value@, created_at: r.created_at, updated_at: r.created_at }),
            final(self)@ == after_replace(old(self)@, StoreKind::Secret, id@, name@, value@, r.created_at),
    {
        let now = now_millis();
        self.replace_secret_at(id, name, value, now)
    }

    /// The secrets of store `id`, each once; none where its table was never
    /// created.
    pub fn list_secrets(&self, id: &String) -> (r: Vec<SecretInfo>)
        requires
            self.wf(),
        ensures
            keys_unique(secret_pairs(r@)),
            keyed(secret_pairs(r@)) == self@.items(StoreKind::Secret, id@).map_values(|it: ItemView| shown(it)),
    {
        let items = self.list_items(StoreKind::Secret, id);
        let mut out: Vec<SecretInfo> = Vec::new();
        let mut i: usize = 0;
        while i < items.len()
            invariant
                i <= items@.len(),
                out@.len() == i,
                forall|j: int| 0 <= j < i ==> (#[trigger] out@[j])@ == (items@[j].0@, shown(items@[j].1@)),
            decreases items@.len() - i,
        {
            let (name, item) = &items[i];
            out.push(SecretInfo::of(name, item));
            i = i + 1;
        }
        proof {
            let ip = item_pairs(items@);
            let sp = secret_pairs(out@);
            assert(sp =~= ip.map_values(|p: (Seq<char>, ItemView)| (p.0, shown(p.1))));
            assert forall|a: int, b: int| 0 <= a < sp.len() && 0 <= b < sp.len() && a != b implies sp[a].0 != sp[b].0 by {
                assert(sp[a].0 == ip[a].0 && sp[b].0 == ip[b].0);
            }
            assert forall|k: Seq<char>| #[trigger] keyed(sp).contains_key(k) == keyed(ip).contains_key(k) by {
                if keyed(ip).contains_key(k) {
                    let j = choose|j: int| 0 <= j < ip.len() && ip[j].0 == k;
                    assert(sp[j].0 == k);
                }
                if keyed(sp).contains_key(k) {
                    let j = choose|j: int| 0 <= j < sp.len() && sp[j].0 == k;
                    assert(ip[j].0 == k);
                }
            }
            assert forall|k: Seq<char>| #[trigger] keyed(sp).contains_key(k) implies keyed(sp)[k] == shown(keyed(ip)[k]) by {
                let j = choose|j: int| 0 <= j < sp.len() && sp[j].0 == k;
                crate::keyed::lemma_keyed_at(sp, j);
                crate::keyed::lemma_keyed_at(ip, j);
            }
            assert(keyed(sp) =~= keyed(ip).map_values(|it: ItemView| shown(it)));
        }
        out
    }

    /// The secret `name` of store `id`; NotFound where the table was never
    /// created or holds no such name.
    pub fn get_secret(&self, id: &String, name: &String) -> (r: Result<SecretInfo, Error>)
        requires
            self.wf(),
        ensures
            r is Ok == self@.items(StoreKind::Secret, id@).contains_key(name@),
            r is Ok ==> r->Ok_0@ == (name@, shown(self@.items(StoreKind::Secret, id@)[name@])),
            r is Err ==> r->Err_0.kind == ErrorKind::NotFound,
    {
        match self.get_item(StoreKind::Secret, id, name) {
            Ok(item) => Ok(SecretInfo::of(name, &item)),
            Err(e) => Err(e),
        }
    }
}

} // verus!
