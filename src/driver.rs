//! What the adapter exchanges with a key/value backend, and the Redis backend's handle.

use vstd::prelude::*;
use vstd::utf8::encode_utf8;

verus! {

/// A key and its value, as a backend returns them.
#[derive(Debug, Clone)]
pub struct KVEntry {
    pub ino: u64,
    pub key: String,
    pub val: String,
}

impl KVEntry {
    /// Number of bytes in the value.
    pub open spec fn spec_len(&self) -> nat {
        encode_utf8(self.val@).len()
    }

    pub fn new(ino: u64, key: String, val: String) -> (r: KVEntry)
        ensures
            r.ino == ino,
            r.key@ == key@,
            r.val@ == val@,
    {
        KVEntry { ino: ino, key: key, val: val }
    }

    /// The number of bytes of the value.
    pub fn len(&self) -> (r: usize)
        ensures
            r as nat == self.spec_len(),
    {
        self.val.as_str().as_bytes().len()
    }
}

/// A key as a directory listing of the backend yields it.
#[derive(Debug, Clone)]
pub struct KVRef {
    pub ino: u64,
    pub key: String,
}

/// A failure of the backend; the adapter only tells it apart from absence.
#[derive(Debug, Clone)]
pub struct DriverError {
    pub message: String,
}

/// The four operations the adapter needs from a key/value backend.
pub trait KVReader {
    /// The value stored under `name`, carried with the inode `ino`.
    fn get_by_name(&self, name: String, ino: u64) -> Result<Option<KVEntry>, DriverError>;

    /// The entry behind `ino`, where the backend keeps its own reverse mapping.
    fn get_by_ino(&self, ino: u64) -> Result<Option<KVEntry>, DriverError>;

    /// The keys of the store; `offset` is advisory.
    fn list_keys(&self, offset: i64) -> Result<Vec<KVRef>, DriverError>;

    /// The whole value behind `ino`.
    fn read(&self, ino: u64, fh: u64, offset: i64) -> Result<Option<Vec<u8>>, DriverError>;
}

#[verifier::external_type_specification]
#[verifier::external_body]
pub struct ExRedisClient(redis::Client);

/// The Redis backend: a client handle through which its connections are made.
pub struct RedisDriver {
    client: redis::Client,
}

impl RedisDriver {
    /// The client handle the backend talks through.
    pub closed spec fn spec_client(&self) -> redis::Client {
        self.client
    }

    pub fn new(client: redis::Client) -> (r: RedisDriver)
        ensures
            r.spec_client() == client,
    {
        RedisDriver { client: client }
    }

    /// The client handle the backend talks through.
    pub fn client(&self) -> (r: &redis::Client)
        ensures
            *r == self.spec_client(),
    {
        &self.client
    }
}

} // verus!
