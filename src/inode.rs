//! The partition of the inode space and the hashed assignment of inodes to keys.

use vstd::prelude::*;

verus! {

/// Inode of the mount root.
pub const ROOT_INO: u64 = 1;

/// First inode of the static control range.
pub const RAW_START: u64 = 2;

/// Last inode of the static control range.
pub const RAW_END: u64 = 8191;

/// First inode reserved for the lock namespace.
pub const LOCK_START: u64 = 8192;

/// Last inode reserved for the lock namespace.
pub const LOCK_END: u64 = 100_000_000_000_000;

/// First inode of the key-backed range.
pub const KV_START: u64 = 400_000_000_000_000;

/// End of the key-backed range: hashed inodes stay strictly below it.
pub const KV_END: u64 = 500_000_000_000_000;

/// Inode of the `/kv` directory.
pub const KV_DIR_INO: u64 = 4096;

/// The 64-bit SeaHash digest of a byte string.
pub uninterp spec fn seahash_of(b: Seq<u8>) -> u64;

/// Relies on `seahash::hash`: a digest that depends on the bytes alone.
#[verifier::external_body]
fn seahash_bytes(b: &[u8]) -> (r: u64)
    ensures
        r == seahash_of(b@),
{
    seahash::hash(b)
}

/// The key-range inode that a digest maps to.
pub open spec fn kv_ino_of_hash(h: u64) -> u64 {
    ((h as int) % ((KV_END - KV_START) as int) + KV_START as int) as u64
}

/// The inode assigned to the key with bytes `k`.
pub open spec fn spec_assign(k: Seq<u8>) -> u64 {
    kv_ino_of_hash(seahash_of(k))
}

/// Whether `ino` lies in the key-backed range as dispatch sees it (both ends included).
pub open spec fn in_kv_range(ino: u64) -> bool {
    KV_START <= ino <= KV_END
}

/// Whether `ino` lies in the static range as dispatch sees it (zero included).
pub open spec fn in_static_range(ino: u64) -> bool {
    ino <= RAW_END
}

/// Maps a digest into the key-backed range.
pub fn kv_ino_from_hash(h: u64) -> (r: u64)
    ensures
        r == kv_ino_of_hash(h),
        KV_START <= r < KV_END,
{
    h % (KV_END - KV_START) + KV_START
}

/// The inode of the key with bytes `key`: its digest reduced into the key-backed range.
pub fn assign(key: &[u8]) -> (r: u64)
    ensures
        r == spec_assign(key@),
        KV_START <= r < KV_END,
{
    let h = seahash_bytes(key);
    kv_ino_from_hash(h)
}

/// Every byte string is assigned one inode, and that inode lies in
/// `[KV_START, KV_END)`.
pub proof fn lemma_assign_in_kv_range(k: Seq<u8>)
    ensures
        KV_START <= spec_assign(k) < KV_END,
        in_kv_range(spec_assign(k)),
        !in_static_range(spec_assign(k)),
{
}

/// Whether `ino` falls in the static range.
pub fn is_static_ino(ino: u64) -> (r: bool)
    ensures
        r == in_static_range(ino),
{
    ino <= RAW_END
}

/// Whether `ino` falls in the key-backed range.
pub fn is_kv_ino(ino: u64) -> (r: bool)
    ensures
        r == in_kv_range(ino),
{
    KV_START <= ino && ino <= KV_END
}

} // verus!
