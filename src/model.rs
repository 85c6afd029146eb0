use vstd::prelude::*;

verus! {

/// The three kinds of store that the data layer keeps.
#[derive(Clone, Copy, Debug, PartialEq, Eq, Structural)]
pub enum StoreKind {
    Config,
    Kv,
    Secret,
}

/// What the registry holds for one store: everything of its descriptor but
/// the id, which is the registry's key. Times are milliseconds since the Unix
/// epoch; a secret store has no update time.
#[derive(Clone, Debug)]
pub struct StoreMetadata {
    pub name: String,
    pub created_at: i64,
    pub updated_at: Option<i64>,
}

pub ghost struct MetaView {
    pub name: Seq<char>,
    pub created_at: i64,
    pub updated_at: Option<i64>,
}

impl View for StoreMetadata {
    type V = MetaView;

    open spec fn view(&self) -> MetaView {
        MetaView { name: self.name@, created_at: self.created_at, updated_at: self.updated_at }
    }
}

impl StoreMetadata {
    pub fn duplicate(&self) -> (r: StoreMetadata)
        ensures
            r@ == self@,
    {
        StoreMetadata { name: self.name.clone(), created_at: self.created_at, updated_at: self.updated_at }
    }
}

/// The registry's record of a config store.
pub type ConfigStoreMetadata = StoreMetadata;

/// The registry's record of a KV store.
pub type KVStoreMetadata = StoreMetadata;

/// The registry's record of a secret store, whose `updated_at` is always
/// `None`.
pub type SecretStoreMetadata = StoreMetadata;

/// The metadata of a store of `kind` made at `now`.
pub open spec fn new_meta(kind: StoreKind, name: Seq<char>, now: i64) -> MetaView {
    MetaView {
        name,
        created_at: now,
        updated_at: if kind == StoreKind::Secret { None } else { Some(now) },
    }
}

/// A store as callers see it: its id together with its metadata.
#[derive(Clone, Debug)]
pub struct StoreDescriptor {
    pub id: String,
    pub name: String,
    pub created_at: i64,
    pub updated_at: Option<i64>,
}

impl View for StoreDescriptor {
    type V = (Seq<char>, MetaView);

    open spec fn view(&self) -> (Seq<char>, MetaView) {
        (self.id@, MetaView { name: self.name@, created_at: self.created_at, updated_at: self.updated_at })
    }
}

impl StoreDescriptor {
    pub fn from_metadata(id: &String, meta: &StoreMetadata) -> (r: StoreDescriptor)
        ensures
            r@ == (id@, meta@),
    {
        StoreDescriptor {
            id: id.clone(),
            name: meta.name.clone(),
            created_at: meta.created_at,
            updated_at: meta.updated_at,
        }
    }
}

/// One item of a store's table. Config values are UTF-8 text held as bytes;
/// for a secret, `updated_at` is the time of its last write.
#[derive(Clone, Debug)]
pub struct ItemRecord {
    pub value: Vec<u8>,
    pub created_at: i64,
    pub updated_at: i64,
}

pub ghost struct ItemView {
    pub value: Seq<u8>,
    pub created_at: i64,
    pub updated_at: i64,
}

impl View for ItemRecord {
    type V = ItemView;

    open spec fn view(&self) -> ItemView {
        ItemView { value: self.value@, created_at: self.created_at, updated_at: self.updated_at }
    }
}

impl ItemRecord {
    pub fn duplicate(&self) -> (r: ItemRecord)
        ensures
            r@ == self@,
    {
        let value = self.value.clone();
        assert(value@ =~= self.value@);
        ItemRecord { value, created_at: self.created_at, updated_at: self.updated_at }
    }
}

/// An item of a config store; its value is UTF-8 text.
pub type ConfigStoreItemMetadata = ItemRecord;

/// An item of a KV store.
pub type KVStoreItemMetadata = ItemRecord;

/// A secret of a secret store.
pub type SecretStoreItemMetadata = ItemRecord;

/// The categories of failure that callers of the data layer tell apart.
#[derive(Clone, Copy, Debug, PartialEq, Eq, Structural)]
pub enum ErrorKind {
    NotFound,
    Conflict,
    Validation,
    Internal,
}

/// A failure of the data layer: its category and a message for the client.
#[derive(Clone, Debug)]
pub struct Error {
    pub kind: ErrorKind,
    pub message: String,
}

impl Error {
    pub fn new(kind: ErrorKind, message: &str) -> (r: Error)
        ensures
            r.kind == kind,
            r.message@ == message@,
    {
        Error { kind, message: message.to_owned() }
    }

    /// The failure that an error of the storage engine becomes: its detail
    /// stays with the server.
    pub fn internal() -> (r: Error)
        ensures
            r.kind == ErrorKind::Internal,
            r.message@ == "Internal server error"@,
    {
        Error::new(ErrorKind::Internal, "Internal server error")
    }

    /// The HTTP status that the failure is reported with.
    pub fn status_code(&self) -> (r: u16)
        ensures
            r == status_of(self.kind),
    {
        match self.kind {
            ErrorKind::NotFound => 404,
            ErrorKind::Conflict => 409,
            ErrorKind::Validation => 400,
            ErrorKind::Internal => 500,
        }
    }
}

pub open spec fn status_of(kind: ErrorKind) -> u16 {
    match kind {
        ErrorKind::NotFound => 404,
        ErrorKind::Conflict => 409,
        ErrorKind::Validation => 400,
        ErrorKind::Internal => 500,
    }
}

/// The body of a request to create a config store.
#[derive(Clone, Debug)]
pub struct CreateConfigStoreRequest {
    pub name: String,
}

/// The body of a request to create a KV store.
#[derive(Clone, Debug)]
pub struct CreateKVStoreRequest {
    pub name: String,
}

/// The body of a request to create a secret store.
#[derive(Clone, Debug)]
pub struct CreateSecretStoreRequest {
    pub name: String,
}

} // verus!
