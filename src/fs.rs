//! The filesystem adapter. Each callback classifies its inode by range and
//! either answers from the static tree, or names the backend call it needs;
//! a second step turns the backend's outcome into the reply and keeps the
//! resolver up to date.

use vstd::prelude::*;
use vstd::utf8::encode_utf8;
use crate::config::Config;
use crate::driver::{DriverError, KVEntry, KVRef};
use crate::inode::{
    assign, in_kv_range, in_static_range, is_kv_ino, is_static_ino, spec_assign, KV_DIR_INO,
    ROOT_INO,
};
use crate::resolver::{
    find_key, lemma_remembered_keeps, lemma_remembered_len, lemma_remembered_resolves, opt_key_view,
    remembered, Resolver, DEFAULT_CAPACITY,
};

verus! {

/// Inode of `/raw`.
pub const RAW_INO: u64 = 2;

/// Inode of `/raw:help`.
pub const RAW_HELP_INO: u64 = 3;

/// Inode of `/lock`.
pub const LOCK_DIR_INO: u64 = 2048;

/// Inode of `/lock:help`.
pub const LOCK_HELP_INO: u64 = 2049;

/// Inode of `/kv:help`.
pub const KV_HELP_INO: u64 = 4097;

pub const RAW_HELP: &'static str = "Send raw commands to Redis.\n";

pub const LOCK_HELP: &'static str = "Atomic locks via files.\n";

pub const KV_HELP: &'static str =
    "Key/Value store via files.\n\nEach file under /kv is a key; reading it gives the value and a newline.\n";

/// The kind of a node.
#[derive(Clone, Copy, Debug, PartialEq, Eq, Structural)]
pub enum FileKind {
    Directory,
    RegularFile,
}

/// The two errors a callback replies with.
#[derive(Clone, Copy, Debug, PartialEq, Eq, Structural)]
pub enum Errno {
    /// The node does not exist, or its name cannot be represented.
    NotFound,
    /// A transient failure; the caller may retry.
    TryAgain,
}

/// POSIX-style metadata of a node; timestamps are stamped when it is handed to the kernel.
#[derive(Clone, Copy, Debug, PartialEq, Eq, Structural)]
pub struct AttrRecord {
    pub ino: u64,
    pub size: u64,
    pub blocks: u64,
    pub kind: FileKind,
    pub perm: u16,
    pub nlink: u32,
    pub uid: u32,
    pub gid: u32,
    pub rdev: u32,
    pub flags: u32,
    pub blksize: u32,
}

/// A node of the static tree.
#[derive(Debug)]
pub struct DirEntry {
    pub ino: u64,
    pub kind: FileKind,
    pub attr: AttrRecord,
    pub name: String,
    pub content: Option<String>,
}

/// The abstract form of a node: inode, kind, attributes, name and content.
pub type NodeView = (u64, FileKind, AttrRecord, Seq<char>, Option<Seq<char>>);

impl View for DirEntry {
    type V = NodeView;

    open spec fn view(&self) -> NodeView {
        (self.ino, self.kind, self.attr, self.name@, opt_key_view(self.content))
    }
}

/// One item of a directory listing; `next_offset` is where a listing resumes after it.
#[derive(Debug)]
pub struct DirListing {
    pub ino: u64,
    pub kind: FileKind,
    pub name: String,
    pub next_offset: u64,
}

impl View for DirListing {
    type V = (u64, FileKind, Seq<char>, u64);

    open spec fn view(&self) -> (u64, FileKind, Seq<char>, u64) {
        (self.ino, self.kind, self.name@, self.next_offset)
    }
}

/// A backend call a callback needs before it can reply.
#[derive(Debug)]
pub enum DriverCall {
    GetByName { name: String, ino: u64 },
    GetByIno { ino: u64 },
    ListKeys { offset: i64 },
    Read { ino: u64, fh: u64, offset: i64 },
}

/// The first step of a callback: a reply, or a backend call to make first.
#[derive(Debug)]
pub enum Outcome<T> {
    Done(Result<T, Errno>),
    Call(DriverCall),
}

/// The attributes of a node of `kind` with inode `ino` and `size` bytes.
pub open spec fn spec_attr(c: Config, kind: FileKind, ino: u64, size: u64) -> AttrRecord {
    AttrRecord {
        ino: ino,
        size: size,
        blocks: 0,
        kind: kind,
        perm: c.chmod,
        nlink: 1,
        uid: c.uid,
        gid: c.gid,
        rdev: 0,
        flags: 0,
        blksize: 512,
    }
}

/// The size of a static node: the bytes of its content, or zero.
pub open spec fn content_size(content: Option<Seq<char>>) -> u64 {
    match content {
        Some(t) => encode_utf8(t).len() as u64,
        None => 0,
    }
}

/// A static node as the layout defines it.
pub open spec fn spec_node(
    c: Config,
    ino: u64,
    kind: FileKind,
    name: Seq<char>,
    content: Option<Seq<char>>,
) -> NodeView {
    (ino, kind, spec_attr(c, kind, ino, content_size(content)), name, content)
}

/// The mount root.
pub open spec fn root_node(c: Config) -> NodeView {
    spec_node(c, ROOT_INO, FileKind::Directory, "."@, None)
}

/// The nodes directly under the root, in listing order.
pub open spec fn root_children(c: Config) -> Seq<NodeView> {
    let rest = seq![
        spec_node(c, LOCK_DIR_INO, FileKind::Directory, "lock"@, None),
        spec_node(c, LOCK_HELP_INO, FileKind::RegularFile, "lock:help"@, Some(LOCK_HELP@)),
        spec_node(c, KV_DIR_INO, FileKind::Directory, "kv"@, None),
        spec_node(c, KV_HELP_INO, FileKind::RegularFile, "kv:help"@, Some(KV_HELP@)),
    ];
    if c.disable_raw {
        rest
    } else {
        seq![
            spec_node(c, RAW_INO, FileKind::RegularFile, "raw"@, None),
            spec_node(c, RAW_HELP_INO, FileKind::RegularFile, "raw:help"@, Some(RAW_HELP@)),
        ] + rest
    }
}

/// The whole static table: the root, then its children.
pub open spec fn static_table(c: Config) -> Seq<NodeView> {
    seq![root_node(c)] + root_children(c)
}

/// The first node of `s` with inode `ino`.
pub open spec fn find_by_ino(s: Seq<NodeView>, ino: u64) -> Option<NodeView>
    decreases s.len(),
{
    if s.len() == 0 {
        None
    } else if s[0].0 == ino {
        Some(s[0])
    } else {
        find_by_ino(s.drop_first(), ino)
    }
}

/// The first node of `s` named `name`.
pub open spec fn find_by_name(s: Seq<NodeView>, name: Seq<char>) -> Option<NodeView>
    decreases s.len(),
{
    if s.len() == 0 {
        None
    } else if s[0].3 == name {
        Some(s[0])
    } else {
        find_by_name(s.drop_first(), name)
    }
}

/// The size reported for a value of `n` bytes: the value and a trailing newline.
pub open spec fn kv_size(n: nat) -> u64 {
    (n + 1) as u64
}

/// Where a window at `offset` starts in data of `len` bytes or items.
pub open spec fn clamp_start(offset: i64, len: nat) -> int {
    if offset <= 0 {
        0
    } else if offset >= len {
        len as int
    } else {
        offset as int
    }
}

/// The part of `data` that a read of `size` bytes at `offset` returns; empty
/// past the end.
pub open spec fn byte_window(data: Seq<u8>, offset: i64, size: u32) -> Seq<u8> {
    let s = clamp_start(offset, data.len());
    let e = if s + size < data.len() {
        s + size
    } else {
        data.len() as int
    };
    data.subrange(s, e)
}

/// The bytes of a key-backed file: the value and a newline.
pub open spec fn kv_content(v: Seq<u8>) -> Seq<u8> {
    v.push(10u8)
}

/// The bytes of a read of `size` bytes at `offset`, for `data`.
fn copy_window(data: &[u8], offset: i64, size: u32) -> (r: Vec<u8>)
    ensures
        r@ == byte_window(data@, offset, size),
{
    let len = data.len();
    let start: usize = if offset <= 0 {
        0
    } else if offset as u64 >= len as u64 {
        len
    } else {
        offset as usize
    };
    let end: usize = if (size as u64) < (len - start) as u64 {
        start + size as usize
    } else {
        len
    };
    let mut out: Vec<u8> = Vec::new();
    let mut i: usize = start;
    while i < end
        invariant
            start <= i <= end,
            end <= len,
            len == data@.len(),
            out@ == data@.subrange(start as int, i as int),
        decreases end - i,
    {
        out.push(data[i]);
        assert(data@.subrange(start as int, i + 1) =~= data@.subrange(start as int, i as int).push(
            data@[i as int],
        ));
        i += 1;
    }
    out
}

/// The abstract form of listing items: inode, kind and name.
pub open spec fn items_view(v: Seq<(u64, FileKind, String)>) -> Seq<(u64, FileKind, Seq<char>)> {
    v.map_values(|x: (u64, FileKind, String)| (x.0, x.1, x.2@))
}

/// The listing handed back for `full` from `offset` on; each item carries the
/// offset that follows it.
pub open spec fn listing_window(full: Seq<(u64, FileKind, Seq<char>)>, offset: i64) -> Seq<
    (u64, FileKind, Seq<char>, u64),
> {
    let s = clamp_start(offset, full.len());
    Seq::new(
        (full.len() - s) as nat,
        |j: int| (full[s + j].0, full[s + j].1, full[s + j].2, (s + j + 1) as u64),
    )
}

/// The entries every listing starts with: the parent, and for a directory
/// other than the root, the directory itself.
pub open spec fn dot_items(ino: u64) -> Seq<(u64, FileKind, Seq<char>)> {
    if ino == ROOT_INO {
        seq![(ROOT_INO, FileKind::Directory, ".."@)]
    } else {
        seq![(ROOT_INO, FileKind::Directory, ".."@), (ino, FileKind::Directory, "."@)]
    }
}

/// The full listing of the root, before the offset applies.
pub open spec fn root_items(children: Seq<NodeView>) -> Seq<(u64, FileKind, Seq<char>)> {
    dot_items(ROOT_INO) + children.map_values(|n: NodeView| (n.0, n.1, n.3))
}

/// How many of `len` keys a listing capped at `max` shows; a negative cap shows all.
pub open spec fn listed_count(len: nat, max: i64) -> nat {
    if max < 0 || max >= len {
        len
    } else {
        max as nat
    }
}

/// The keys a `/kv` listing shows, in the backend's order.
pub open spec fn listed_keys(refs: Seq<KVRef>, max: i64) -> Seq<Seq<char>> {
    refs.take(listed_count(refs.len(), max) as int).map_values(|r: KVRef| r.key@)
}

/// The listing items for `keys`: each at its assigned inode, as a file.
pub open spec fn key_items(keys: Seq<Seq<char>>) -> Seq<(u64, FileKind, Seq<char>)> {
    keys.map_values(|k: Seq<char>| (spec_assign(encode_utf8(k)), FileKind::RegularFile, k))
}

/// The resolver's entries after each key of `keys` is recorded in turn.
pub open spec fn remember_keys(s: Seq<(u64, Seq<char>)>, capacity: nat, keys: Seq<Seq<char>>) -> Seq<
    (u64, Seq<char>),
>
    decreases keys.len(),
{
    if keys.len() == 0 {
        s
    } else {
        let k = keys.last();
        remembered(remember_keys(s, capacity, keys.drop_last()), capacity, spec_assign(encode_utf8(k)), k)
    }
}

proof fn lemma_items_push(v: Seq<(u64, FileKind, String)>, x: (u64, FileKind, String))
    ensures
        items_view(v.push(x)) == items_view(v).push((x.0, x.1, x.2@)),
{
    assert(items_view(v.push(x)) =~= items_view(v).push((x.0, x.1, x.2@)));
}

proof fn lemma_listing_push(v: Seq<DirListing>, x: DirListing)
    ensures
        v.push(x).map_values(|d: DirListing| d@) == v.map_values(|d: DirListing| d@).push(x@),
{
    assert(v.push(x).map_values(|d: DirListing| d@) =~= v.map_values(|d: DirListing| d@).push(x@));
}

/// The listing handed back from `offset` on, for `full`.
fn emit_listing(full: &Vec<(u64, FileKind, String)>, offset: i64) -> (r: Vec<DirListing>)
    ensures
        r@.map_values(|d: DirListing| d@) == listing_window(items_view(full@), offset),
{
    let ghost f = items_view(full@);
    let len = full.len();
    let start: usize = if offset <= 0 {
        0
    } else if offset as u64 >= len as u64 {
        len
    } else {
        offset as usize
    };
    let ghost w = listing_window(f, offset);
    let mut out: Vec<DirListing> = Vec::new();
    let mut i: usize = start;
    while i < len
        invariant
            start <= i <= len,
            len == full@.len(),
            f == items_view(full@),
            w == listing_window(f, offset),
            start == clamp_start(offset, f.len()),
            out@.map_values(|d: DirListing| d@) == w.take(i - start),
        decreases len - i,
    {
        let item = DirListing {
            ino: full[i].0,
            kind: full[i].1,
            name: full[i].2.clone(),
            next_offset: i as u64 + 1,
        };
        assert(f[i as int] == (full@[i as int].0, full@[i as int].1, full@[i as int].2@));
        assert(item@ == w[i - start]);
        proof {
            lemma_listing_push(out@, item);
        }
        out.push(item);
        assert(w.take(i + 1 - start) =~= w.take(i - start).push(w[i - start]));
        i += 1;
    }
    assert(w.take(len - start) =~= w);
    out
}

/// The adapter's state: configuration, static tree and resolver.
pub struct KVFS {
    config: Config,
    entries: Vec<DirEntry>,
    resolver: Resolver,
}

impl KVFS {
    /// The configuration the adapter was built with.
    pub closed spec fn spec_config(&self) -> Config {
        self.config
    }

    /// The static tree: empty until it is built, then the root and its children.
    pub closed spec fn static_nodes(&self) -> Seq<NodeView> {
        self.entries@.map_values(|e: DirEntry| e@)
    }

    /// The resolver's entries, least recently recorded first.
    pub closed spec fn cache(&self) -> Seq<(u64, Seq<char>)> {
        self.resolver@
    }

    /// How many entries the resolver keeps at most.
    pub closed spec fn cache_capacity(&self) -> nat {
        self.resolver.spec_capacity()
    }

    /// The nodes listed under the root.
    pub open spec fn listed_root(&self) -> Seq<NodeView> {
        if self.static_nodes().len() == 0 {
            Seq::empty()
        } else {
            self.static_nodes().drop_first()
        }
    }

    pub closed spec fn wf(&self) -> bool {
        &&& self.resolver.wf()
        &&& (self.static_nodes().len() == 0 || self.static_nodes() == static_table(self.config))
    }

    /// An adapter whose static tree is not built yet, with an empty resolver.
    pub fn new(config: Config) -> (r: KVFS)
        ensures
            r.wf(),
            r.spec_config() == config,
            r.static_nodes().len() == 0,
            r.cache().len() == 0,
            r.cache_capacity() == DEFAULT_CAPACITY,
    {
        let r = KVFS { config: config, entries: Vec::new(), resolver: Resolver::new(DEFAULT_CAPACITY) };
        assert(r.static_nodes() =~= Seq::<NodeView>::empty());
        r
    }

    /// The attributes of a node, from the configured mode and ownership.
    fn get_attr(&self, kind: FileKind, ino: u64, size: u64) -> (r: AttrRecord)
        ensures
            r == spec_attr(self.config, kind, ino, size),
    {
        AttrRecord {
            ino: ino,
            size: size,
            blocks: 0,
            kind: kind,
            perm: self.config.chmod,
            nlink: 1,
            uid: self.config.uid,
            gid: self.config.gid,
            rdev: 0,
            flags: 0,
            blksize: 512,
        }
    }

    fn make_entry(&self, ino: u64, kind: FileKind, name: &str, content: Option<&str>) -> (r: DirEntry)
        ensures
            r@ == spec_node(self.config, ino, kind, name@, match content {
                Some(t) => Some(t@),
                None => None,
            }),
    {
        let (size, text) = match content {
            Some(t) => {
                let n = t.as_bytes().len();
                (n as u64, Some(t.to_owned()))
            },
            None => (0u64, None),
        };
        DirEntry {
            ino: ino,
            kind: kind,
            attr: self.get_attr(kind, ino, size),
            name: name.to_owned(),
            content: text,
        }
    }

    /// Builds the static tree: the root, then `/raw` and `/raw:help` unless raw
    /// access is disabled, then `/lock`, `/lock:help`, `/kv` and `/kv:help`.
    pub fn init_static_dirs(&mut self)
        requires
            old(self).wf(),
        ensures
            final(self).wf(),
            final(self).spec_config() == old(self).spec_config(),
            final(self).cache() == old(self).cache(),
            final(self).cache_capacity() == old(self).cache_capacity(),
            final(self).static_nodes() == static_table(old(self).spec_config()),
    {
        let mut entries: Vec<DirEntry> = Vec::new();
        entries.push(self.make_entry(ROOT_INO, FileKind::Directory, ".", None));
        if !self.config.disable_raw {
            entries.push(self.make_entry(RAW_INO, FileKind::RegularFile, "raw", None));
            entries.push(
                self.make_entry(RAW_HELP_INO, FileKind::RegularFile, "raw:help", Some(RAW_HELP)),
            );
        }
        entries.push(self.make_entry(LOCK_DIR_INO, FileKind::Directory, "lock", None));
        entries.push(
            self.make_entry(LOCK_HELP_INO, FileKind::RegularFile, "lock:help", Some(LOCK_HELP)),
        );
        entries.push(self.make_entry(KV_DIR_INO, FileKind::Directory, "kv", None));
        entries.push(self.make_entry(KV_HELP_INO, FileKind::RegularFile, "kv:help", Some(KV_HELP)));
        self.entries = entries;
        assert(self.static_nodes() =~= static_table(self.config));
    }

    /// The static node with inode `ino`.
    fn static_by_ino(&self, ino: u64) -> (r: Option<&DirEntry>)
        ensures
            match r {
                Some(e) => find_by_ino(self.static_nodes(), ino) == Some(e@),
                None => find_by_ino(self.static_nodes(), ino) is None,
            },
    {
        let ghost s = self.static_nodes();
        let n = self.entries.len();
        let mut i: usize = 0;
        assert(s.subrange(0, n as int) =~= s);
        while i < n
            invariant
                0 <= i <= n,
                n == self.entries.len(),
                s == self.static_nodes(),
                find_by_ino(s, ino) == find_by_ino(s.subrange(i as int, n as int), ino),
            decreases n - i,
        {
            assert(s.subrange(i as int, n as int).drop_first() =~= s.subrange(i + 1, n as int));
            if self.entries[i].ino == ino {
                return Some(&self.entries[i]);
            }
            i += 1;
        }
        None
    }

    /// The node listed under the root with name `name`.
    fn root_child_by_name(&self, name: &String) -> (r: Option<&DirEntry>)
        ensures
            match r {
                Some(e) => find_by_name(self.listed_root(), name@) == Some(e@),
                None => find_by_name(self.listed_root(), name@) is None,
            },
    {
        let ghost s = self.listed_root();
        let n = self.entries.len();
        if n == 0 {
            return None;
        }
        let mut i: usize = 1;
        assert(s.subrange(0, n - 1) =~= s);
        while i < n
            invariant
                1 <= i <= n,
                n == self.entries.len(),
                s == self.listed_root(),
                s.len() == n - 1,
                forall|j: int| 0 <= j < s.len() ==> s[j] == #[trigger] self.entries@[j + 1]@,
                find_by_name(s, name@) == find_by_name(s.subrange(i - 1, n - 1), name@),
            decreases n - i,
        {
            assert(s.subrange(i - 1, n - 1).drop_first() =~= s.subrange(i as int, n - 1));
            assert(s[i - 1] == self.entries@[i as int]@);
            if self.entries[i].name == *name {
                return Some(&self.entries[i]);
            }
            i += 1;
        }
        None
    }
    /// First step of `lookup`: a root child is answered from the static tree;
    /// a name under `/kv` needs the backend's value for it, at its assigned inode.
    /// `name` is `None` when the kernel's name is not UTF-8.
    pub fn lookup(&self, parent: u64, name: Option<String>) -> (r: Outcome<AttrRecord>)
        ensures
            match name {
                None => r == Outcome::<AttrRecord>::Done(Err(Errno::NotFound)),
                Some(n) => if n@.len() == 0 {
                    r == Outcome::<AttrRecord>::Done(Err(Errno::NotFound))
                } else if parent == ROOT_INO {
                    r == Outcome::<AttrRecord>::Done(
                        match find_by_name(self.listed_root(), n@) {
                            Some(node) => Ok(node.2),
                            None => Err(Errno::NotFound),
                        },
                    )
                } else if parent == KV_DIR_INO {
                    r matches Outcome::Call(DriverCall::GetByName { name: m, ino: i }) && m@ == n@
                        && i == spec_assign(encode_utf8(n@))
                } else {
                    r == Outcome::<AttrRecord>::Done(Err(Errno::NotFound))
                },
            },
    {
        let n = match name {
            Some(n) => n,
            None => return Outcome::Done(Err(Errno::NotFound)),
        };
        if n.as_str().as_bytes().len() == 0 {
            return Outcome::Done(Err(Errno::NotFound));
        }
        if parent == ROOT_INO {
            match self.root_child_by_name(&n) {
                Some(e) => Outcome::Done(Ok(e.attr)),
                None => Outcome::Done(Err(Errno::NotFound)),
            }
        } else if parent == KV_DIR_INO {
            let ino = assign(n.as_str().as_bytes());
            Outcome::Call(DriverCall::GetByName { name: n, ino: ino })
        } else {
            Outcome::Done(Err(Errno::NotFound))
        }
    }

    /// Second step of `lookup` under `/kv`: a value found gives a file of its
    /// length plus one, and `ino` is recorded as `name`'s inode.
    pub fn lookup_fetched(
        &mut self,
        name: String,
        ino: u64,
        fetched: Result<Option<KVEntry>, DriverError>,
    ) -> (r: Result<AttrRecord, Errno>)
        requires
            old(self).wf(),
            fetched matches Ok(Some(e)) ==> e.spec_len() < u64::MAX,
        ensures
            final(self).wf(),
            final(self).spec_config() == old(self).spec_config(),
            final(self).static_nodes() == old(self).static_nodes(),
            final(self).cache_capacity() == old(self).cache_capacity(),
            match fetched {
                Ok(Some(e)) => {
                    &&& r == Ok::<AttrRecord, Errno>(
                        spec_attr(old(self).spec_config(), FileKind::RegularFile, ino, kv_size(e.spec_len())),
                    )
                    &&& final(self).cache() == remembered(old(self).cache(), old(self).cache_capacity(), ino, name@)
                },
                Ok(None) => r == Err::<AttrRecord, Errno>(Errno::NotFound) && final(self).cache() == old(self).cache(),
                Err(_) => r == Err::<AttrRecord, Errno>(Errno::TryAgain) && final(self).cache() == old(self).cache(),
            },
    {
        match fetched {
            Ok(Some(e)) => {
                let size = e.len() as u64 + 1;
                self.resolver.remember(ino, name);
                Ok(self.get_attr(FileKind::RegularFile, ino, size))
            },
            Ok(None) => Err(Errno::NotFound),
            Err(_) => Err(Errno::TryAgain),
        }
    }

    /// First step of `getattr`: a static inode is answered from the static
    /// tree; a key-range inode needs the backend, by key where the resolver
    /// knows it and by inode otherwise.
    pub fn getattr(&self, ino: u64) -> (r: Outcome<AttrRecord>)
        ensures
            if in_static_range(ino) {
                r == Outcome::<AttrRecord>::Done(
                    match find_by_ino(self.static_nodes(), ino) {
                        Some(node) => Ok(node.2),
                        None => Err(Errno::NotFound),
                    },
                )
            } else if in_kv_range(ino) {
                match find_key(self.cache(), ino) {
                    Some(k) => r matches Outcome::Call(DriverCall::GetByName { name: m, ino: i })
                        && m@ == k && i == ino,
                    None => r matches Outcome::Call(DriverCall::GetByIno { ino: i }) && i == ino,
                }
            } else {
                r == Outcome::<AttrRecord>::Done(Err(Errno::NotFound))
            },
    {
        if is_static_ino(ino) {
            match self.static_by_ino(ino) {
                Some(e) => Outcome::Done(Ok(e.attr)),
                None => Outcome::Done(Err(Errno::NotFound)),
            }
        } else if is_kv_ino(ino) {
            match self.resolver.resolve(ino) {
                Some(k) => Outcome::Call(DriverCall::GetByName { name: k, ino: ino }),
                None => Outcome::Call(DriverCall::GetByIno { ino: ino }),
            }
        } else {
            Outcome::Done(Err(Errno::NotFound))
        }
    }

    /// Second step of `getattr` for a key-range inode: an entry found gives a
    /// file of its value's length plus one, and `ino` is recorded as its key's inode.
    pub fn getattr_fetched(&mut self, ino: u64, fetched: Result<Option<KVEntry>, DriverError>) -> (r:
        Result<AttrRecord, Errno>)
        requires
            old(self).wf(),
            fetched matches Ok(Some(e)) ==> e.spec_len() < u64::MAX,
        ensures
            final(self).wf(),
            final(self).spec_config() == old(self).spec_config(),
            final(self).static_nodes() == old(self).static_nodes(),
            final(self).cache_capacity() == old(self).cache_capacity(),
            match fetched {
                Ok(Some(e)) => {
                    &&& r == Ok::<AttrRecord, Errno>(
                        spec_attr(old(self).spec_config(), FileKind::RegularFile, ino, kv_size(e.spec_len())),
                    )
                    &&& final(self).cache() == remembered(old(self).cache(), old(self).cache_capacity(), ino, e.key@)
                },
                Ok(None) => r == Err::<AttrRecord, Errno>(Errno::NotFound) && final(self).cache() == old(self).cache(),
                Err(_) => r == Err::<AttrRecord, Errno>(Errno::TryAgain) && final(self).cache() == old(self).cache(),
            },
    {
        match fetched {
            Ok(Some(e)) => {
                let size = e.len() as u64 + 1;
                self.resolver.remember(ino, e.key);
                Ok(self.get_attr(FileKind::RegularFile, ino, size))
            },
            Ok(None) => Err(Errno::NotFound),
            Err(_) => Err(Errno::TryAgain),
        }
    }

    /// First step of `read`: a static file with content is answered from it; a
    /// key-range inode needs the backend's value.
    pub fn read(&self, ino: u64, fh: u64, offset: i64, size: u32) -> (r: Outcome<Vec<u8>>)
        ensures
            if in_static_range(ino) {
                match find_by_ino(self.static_nodes(), ino) {
                    Some(node) => match node.4 {
                        Some(t) => r matches Outcome::Done(Ok(d)) && d@ == byte_window(encode_utf8(t), offset, size),
                        None => r == Outcome::<Vec<u8>>::Done(Err(Errno::NotFound)),
                    },
                    None => r == Outcome::<Vec<u8>>::Done(Err(Errno::NotFound)),
                }
            } else if in_kv_range(ino) {
                r matches Outcome::Call(DriverCall::Read { ino: i, fh: h, offset: o }) && i == ino
                    && h == fh && o == offset
            } else {
                r == Outcome::<Vec<u8>>::Done(Err(Errno::NotFound))
            },
    {
        if is_static_ino(ino) {
            match self.static_by_ino(ino) {
                Some(e) => match &e.content {
                    Some(t) => Outcome::Done(Ok(copy_window(t.as_str().as_bytes(), offset, size))),
                    None => Outcome::Done(Err(Errno::NotFound)),
                },
                None => Outcome::Done(Err(Errno::NotFound)),
            }
        } else if is_kv_ino(ino) {
            Outcome::Call(DriverCall::Read { ino: ino, fh: fh, offset: offset })
        } else {
            Outcome::Done(Err(Errno::NotFound))
        }
    }

    /// Second step of `read` for a key-range inode: the value and a newline,
    /// cut to the window of `size` bytes at `offset`.
    pub fn read_fetched(offset: i64, size: u32, fetched: Result<Option<Vec<u8>>, DriverError>) -> (r:
        Result<Vec<u8>, Errno>)
        ensures
            match fetched {
                Ok(Some(v)) => r matches Ok(d) && d@ == byte_window(kv_content(v@), offset, size),
                Ok(None) => r == Err::<Vec<u8>, Errno>(Errno::NotFound),
                Err(_) => r == Err::<Vec<u8>, Errno>(Errno::TryAgain),
            },
    {
        match fetched {
            Ok(Some(v)) => {
                let mut data = v;
                data.push(10u8);
                Ok(copy_window(data.as_slice(), offset, size))
            },
            Ok(None) => Err(Errno::NotFound),
            Err(_) => Err(Errno::TryAgain),
        }
    }
    /// First step of `readdir`: the root is listed from the static tree;
    /// `/kv` needs the backend's keys.
    pub fn readdir(&self, ino: u64, offset: i64) -> (r: Outcome<Vec<DirListing>>)
        ensures
            if ino == ROOT_INO {
                r matches Outcome::Done(Ok(l)) && l@.map_values(|d: DirListing| d@) == listing_window(
                    root_items(self.listed_root()),
                    offset,
                )
            } else if ino == KV_DIR_INO {
                r matches Outcome::Call(DriverCall::ListKeys { offset: o }) && o == 0
            } else {
                r == Outcome::<Vec<DirListing>>::Done(Err(Errno::NotFound))
            },
    {
        if ino == ROOT_INO {
            let mut full: Vec<(u64, FileKind, String)> = Vec::new();
            full.push((ROOT_INO, FileKind::Directory, "..".to_owned()));
            let ghost c = self.listed_root();
            let n = self.entries.len();
            assert(items_view(full@) =~= dot_items(ROOT_INO));
            if n > 0 {
                let mut i: usize = 1;
                while i < n
                    invariant
                        1 <= i <= n,
                        n == self.entries.len(),
                        c == self.listed_root(),
                        c.len() == n - 1,
                        forall|j: int| 0 <= j < c.len() ==> c[j] == #[trigger] self.entries@[j + 1]@,
                        items_view(full@) == dot_items(ROOT_INO) + c.take(i - 1).map_values(
                            |m: NodeView| (m.0, m.1, m.3),
                        ),
                    decreases n - i,
                {
                    assert(c[i - 1] == self.entries@[i as int]@);
                    let x = (self.entries[i].ino, self.entries[i].kind, self.entries[i].name.clone());
                    proof {
                        lemma_items_push(full@, x);
                    }
                    full.push(x);
                    assert(c.take(i as int).map_values(|m: NodeView| (m.0, m.1, m.3)) =~= c.take(
                        i - 1,
                    ).map_values(|m: NodeView| (m.0, m.1, m.3)).push((c[i - 1].0, c[i - 1].1, c[i - 1].3)));
                    assert(items_view(full@) =~= dot_items(ROOT_INO) + c.take(i as int).map_values(
                        |m: NodeView| (m.0, m.1, m.3),
                    ));
                    i += 1;
                }
                assert(c.take(n - 1) =~= c);
            } else {
                assert(c =~= Seq::<NodeView>::empty());
                assert(c.map_values(|m: NodeView| (m.0, m.1, m.3)) =~= Seq::empty());
                assert(items_view(full@) =~= dot_items(ROOT_INO) + c.map_values(
                    |m: NodeView| (m.0, m.1, m.3),
                ));
            }
            Outcome::Done(Ok(emit_listing(&full, offset)))
        } else if ino == KV_DIR_INO {
            Outcome::Call(DriverCall::ListKeys { offset: 0 })
        } else {
            Outcome::Done(Err(Errno::NotFound))
        }
    }

    /// Records each listed key of `refs` under its assigned inode and returns
    /// the listing items, at most `max_results` of them when that is not negative.
    fn get_kv_direntries(&mut self, refs: &Vec<KVRef>) -> (r: Vec<(u64, FileKind, String)>)
        requires
            old(self).wf(),
        ensures
            final(self).wf(),
            final(self).spec_config() == old(self).spec_config(),
            final(self).static_nodes() == old(self).static_nodes(),
            final(self).cache_capacity() == old(self).cache_capacity(),
            items_view(r@) == key_items(listed_keys(refs@, old(self).config.max_results)),
            final(self).cache() == remember_keys(
                old(self).cache(),
                old(self).cache_capacity(),
                listed_keys(refs@, old(self).config.max_results),
            ),
    {
        let ghost keys = listed_keys(refs@, self.config.max_results);
        let ghost c0 = self.cache();
        let ghost cap = self.cache_capacity();
        let len = refs.len();
        let max = self.config.max_results;
        let count: usize = if max < 0 || max as u64 >= len as u64 {
            len
        } else {
            max as usize
        };
        assert(count == keys.len());
        let mut out: Vec<(u64, FileKind, String)> = Vec::new();
        let mut i: usize = 0;
        while i < count
            invariant
                0 <= i <= count,
                count <= refs@.len(),
                keys == listed_keys(refs@, self.config.max_results),
                count == keys.len(),
                self.wf(),
                self.cache_capacity() == cap,
                self.spec_config() == old(self).spec_config(),
                self.static_nodes() == old(self).static_nodes(),
                items_view(out@) == key_items(keys.take(i as int)),
                self.cache() == remember_keys(c0, cap, keys.take(i as int)),
            decreases count - i,
        {
            let key = refs[i].key.clone();
            let ino = assign(key.as_str().as_bytes());
            assert(keys[i as int] == refs@[i as int].key@);
            assert(keys.take(i + 1).drop_last() =~= keys.take(i as int));
            assert(key@ == keys[i as int]);
            self.resolver.remember(ino, key.clone());
            let x = (ino, FileKind::RegularFile, key);
            proof {
                lemma_items_push(out@, x);
            }
            out.push(x);
            assert(key_items(keys.take(i + 1)) =~= key_items(keys.take(i as int)).push(
                (spec_assign(encode_utf8(keys[i as int])), FileKind::RegularFile, keys[i as int]),
            ));
            i += 1;
        }
        assert(keys.take(count as int) =~= keys);
        out
    }

    /// Second step of `readdir` for `/kv`: the parent, the directory itself,
    /// then the listed keys at their assigned inodes, each recorded in the
    /// resolver.
    pub fn readdir_fetched(&mut self, offset: i64, fetched: Result<Vec<KVRef>, DriverError>) -> (r:
        Result<Vec<DirListing>, Errno>)
        requires
            old(self).wf(),
        ensures
            final(self).wf(),
            final(self).spec_config() == old(self).spec_config(),
            final(self).static_nodes() == old(self).static_nodes(),
            final(self).cache_capacity() == old(self).cache_capacity(),
            match fetched {
                Ok(refs) => {
                    let keys = listed_keys(refs@, old(self).spec_config().max_results);
                    &&& r matches Ok(l) && l@.map_values(|d: DirListing| d@) == listing_window(
                        dot_items(KV_DIR_INO) + key_items(keys),
                        offset,
                    )
                    &&& final(self).cache() == remember_keys(old(self).cache(), old(self).cache_capacity(), keys)
                },
                Err(_) => r == Err::<Vec<DirListing>, Errno>(Errno::TryAgain) && final(self).cache()
                    == old(self).cache(),
            },
    {
        match fetched {
            Ok(refs) => {
                let items = self.get_kv_direntries(&refs);
                let mut full: Vec<(u64, FileKind, String)> = Vec::new();
                full.push((ROOT_INO, FileKind::Directory, "..".to_owned()));
                full.push((KV_DIR_INO, FileKind::Directory, ".".to_owned()));
                let ghost head = full@;
                let mut i: usize = 0;
                while i < items.len()
                    invariant
                        0 <= i <= items.len(),
                        items_view(head) == dot_items(KV_DIR_INO),
                        items_view(full@) == items_view(head) + items_view(items@).take(i as int),
                    decreases items.len() - i,
                {
                    let x = (items[i].0, items[i].1, items[i].2.clone());
                    proof {
                        lemma_items_push(full@, x);
                    }
                    full.push(x);
                    assert(items_view(items@).take(i + 1) =~= items_view(items@).take(i as int).push(
                        (x.0, x.1, x.2@),
                    ));
                    assert(items_view(full@) =~= items_view(head) + items_view(items@).take(i + 1));
                    i += 1;
                }
                assert(items_view(items@).take(items.len() as int) =~= items_view(items@));
                Ok(emit_listing(&full, offset))
            },
            Err(_) => Err(Errno::TryAgain),
        }
    }
}

/// The names listed under the root: `/raw` and `/raw:help` unless raw access
/// is disabled, then `/lock`, `/lock:help`, `/kv` and `/kv:help`.
pub open spec fn root_child_names(disable_raw: bool) -> Seq<Seq<char>> {
    let rest = seq!["lock"@, "lock:help"@, "kv"@, "kv:help"@];
    if disable_raw {
        rest
    } else {
        seq!["raw"@, "raw:help"@] + rest
    }
}

/// Once the static tree is built, listing the root yields `..` followed by
/// exactly the control nodes that the configuration enables, whatever the
/// backend holds: the listing is made without it.
pub proof fn lemma_root_listing(fs: KVFS)
    requires
        fs.wf(),
        fs.static_nodes().len() > 0,
    ensures
        fs.listed_root() == root_children(fs.spec_config()),
        root_items(fs.listed_root()).map_values(|x: (u64, FileKind, Seq<char>)| x.2) == seq![
            ".."@,
        ] + root_child_names(fs.spec_config().disable_raw),
{
    let c = fs.spec_config();
    assert(static_table(c).drop_first() =~= root_children(c));
    assert(root_items(fs.listed_root()).map_values(|x: (u64, FileKind, Seq<char>)| x.2) =~= seq![
        ".."@,
    ] + root_child_names(c.disable_raw));
}

/// Once the static tree is built, every node listed under the root, and the
/// root itself, has an inode in the static range under which the static tree
/// holds exactly that node; `getattr` answers it from there without the backend.
pub proof fn lemma_root_entries_static(fs: KVFS)
    requires
        fs.wf(),
        fs.static_nodes().len() > 0,
    ensures
        in_static_range(ROOT_INO),
        find_by_ino(fs.static_nodes(), ROOT_INO) == Some(root_node(fs.spec_config())),
        forall|j: int|
            0 <= j < fs.listed_root().len() ==> {
                &&& in_static_range(#[trigger] fs.listed_root()[j].0)
                &&& find_by_ino(fs.static_nodes(), fs.listed_root()[j].0) == Some(
                    fs.listed_root()[j],
                )
            },
{
    let c = fs.spec_config();
    let t = static_table(c);
    assert(static_table(c).drop_first() =~= root_children(c));
    reveal_with_fuel(find_by_ino, 8);
    if c.disable_raw {
        assert(t.drop_first().drop_first() =~= root_children(c).drop_first());
        assert(t.drop_first().drop_first().drop_first() =~= root_children(c).drop_first().drop_first());
        assert(t.drop_first().drop_first().drop_first().drop_first() =~= root_children(
            c,
        ).drop_first().drop_first().drop_first());
    } else {
        let r = root_children(c);
        assert(t.drop_first().drop_first() =~= r.drop_first());
        assert(t.drop_first().drop_first().drop_first() =~= r.drop_first().drop_first());
        assert(t.drop_first().drop_first().drop_first().drop_first() =~= r.drop_first().drop_first().drop_first());
        assert(t.drop_first().drop_first().drop_first().drop_first().drop_first() =~= r.drop_first().drop_first().drop_first().drop_first());
        assert(t.drop_first().drop_first().drop_first().drop_first().drop_first().drop_first() =~= r.drop_first().drop_first().drop_first().drop_first().drop_first());
    }
}

/// Recording a run of keys adds at most one entry per key.
pub proof fn lemma_remember_keys_len(s: Seq<(u64, Seq<char>)>, capacity: nat, keys: Seq<Seq<char>>)
    ensures
        remember_keys(s, capacity, keys).len() <= s.len() + keys.len(),
    decreases keys.len(),
{
    if keys.len() > 0 {
        lemma_remember_keys_len(s, capacity, keys.drop_last());
        let k = keys.last();
        lemma_remembered_len(remember_keys(s, capacity, keys.drop_last()), capacity, spec_assign(encode_utf8(k)), k);
    }
}

/// After a `/kv` listing records `keys`, a listed key resolves from its
/// assigned inode, as long as nothing was evicted (the resolver had room for
/// every listed key) and no later-listed key with another name shares its inode.
pub proof fn lemma_listing_populates_cache(s: Seq<(u64, Seq<char>)>, capacity: nat, keys: Seq<Seq<char>>, j: int)
    requires
        0 <= j < keys.len(),
        s.len() + keys.len() <= capacity,
        forall|l: int|
            j < l < keys.len() ==> keys[l] == keys[j] || spec_assign(encode_utf8(#[trigger] keys[l]))
                != spec_assign(encode_utf8(keys[j])),
    ensures
        find_key(remember_keys(s, capacity, keys), spec_assign(encode_utf8(keys[j]))) == Some(keys[j]),
    decreases keys.len(),
{
    let k = keys.last();
    let prev = remember_keys(s, capacity, keys.drop_last());
    let a = spec_assign(encode_utf8(keys[j]));
    let b = spec_assign(encode_utf8(k));
    if j == keys.len() - 1 || k == keys[j] {
        lemma_remembered_resolves(prev, capacity, b, k);
    } else {
        assert(keys[keys.len() - 1] == k);
        assert(a != b);
        lemma_listing_populates_cache(s, capacity, keys.drop_last(), j);
        assert(keys.drop_last()[j] == keys[j]);
        lemma_remember_keys_len(s, capacity, keys.drop_last());
        lemma_remembered_keeps(prev, capacity, b, k, a);
    }
}

/// A key found by `lookup` under `/kv` resolves from its inode afterwards,
/// whenever the resolver can hold an entry.
pub proof fn lemma_lookup_populates_cache(s: Seq<(u64, Seq<char>)>, capacity: nat, name: Seq<char>)
    requires
        capacity > 0,
    ensures
        find_key(remembered(s, capacity, spec_assign(encode_utf8(name)), name), spec_assign(encode_utf8(name)))
            == Some(name),
{
    lemma_remembered_resolves(s, capacity, spec_assign(encode_utf8(name)), name);
}

/// A `/kv` listing shows at most `max` keys when `max` is not negative, and
/// every key when it is.
pub proof fn lemma_listing_cap(refs: Seq<KVRef>, max: i64)
    ensures
        max >= 0 ==> listed_keys(refs, max).len() <= max,
        max < 0 ==> listed_keys(refs, max).len() == refs.len(),
        key_items(listed_keys(refs, max)).len() == listed_keys(refs, max).len(),
        listing_window(dot_items(KV_DIR_INO) + key_items(listed_keys(refs, max)), 0).len() == 2
            + listed_keys(refs, max).len(),
{
}

/// A key-backed file's size is its value's length plus one, and a read that
/// asks for at least the remaining bytes at an offset no later than that size
/// returns the value and a newline from that offset on; at offset zero, all of it.
pub proof fn lemma_read_size(v: Seq<u8>, offset: i64, size: u32)
    requires
        v.len() + 1 < u64::MAX,
        0 <= offset <= v.len() + 1,
        offset + size >= v.len() + 1,
    ensures
        kv_content(v).len() == kv_size(v.len()),
        byte_window(kv_content(v), offset, size) == kv_content(v).subrange(offset as int, v.len() + 1int),
        offset == 0 ==> byte_window(kv_content(v), offset, size) == kv_content(v),
{
    assert(kv_content(v).subrange(0, v.len() + 1int) =~= kv_content(v));
}

} // verus!
