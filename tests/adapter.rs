use fusekv::config::Config;
use fusekv::driver::{DriverError, KVEntry, KVReader, KVRef};
use fusekv::fs::{
    DirListing, DriverCall, Errno, FileKind, Outcome, KVFS, KV_HELP_INO, LOCK_DIR_INO,
    LOCK_HELP_INO, RAW_HELP, RAW_HELP_INO, RAW_INO,
};
use fusekv::inode::{assign, kv_ino_from_hash, KV_DIR_INO, KV_END, KV_START, ROOT_INO};

struct MapDriver {
    pairs: Vec<(String, String)>,
    fail: bool,
}

impl MapDriver {
    fn new(pairs: &[(&str, &str)]) -> MapDriver {
        MapDriver {
            pairs: pairs.iter().map(|(k, v)| (k.to_string(), v.to_string())).collect(),
            fail: false,
        }
    }
}

impl KVReader for MapDriver {
    fn get_by_name(&self, name: String, ino: u64) -> Result<Option<KVEntry>, DriverError> {
        if self.fail {
            return Err(DriverError { message: "down".to_string() });
        }
        Ok(self
            .pairs
            .iter()
            .find(|(k, _)| *k == name)
            .map(|(_, v)| KVEntry::new(ino, name.clone(), v.clone())))
    }
    fn get_by_ino(&self, _ino: u64) -> Result<Option<KVEntry>, DriverError> {
        Ok(None)
    }
    fn list_keys(&self, _offset: i64) -> Result<Vec<KVRef>, DriverError> {
        if self.fail {
            return Err(DriverError { message: "down".to_string() });
        }
        Ok(self
            .pairs
            .iter()
            .map(|(k, _)| KVRef { ino: assign(k.as_bytes()), key: k.clone() })
            .collect())
    }
    fn read(&self, ino: u64, _fh: u64, _offset: i64) -> Result<Option<Vec<u8>>, DriverError> {
        if self.fail {
            return Err(DriverError { message: "down".to_string() });
        }
        Ok(self
            .pairs
            .iter()
            .find(|(k, _)| assign(k.as_bytes()) == ino)
            .map(|(_, v)| v.as_bytes().to_vec()))
    }
}

fn config(disable_raw: bool, max_results: i64) -> Config {
    Config {
        cluster_mode: false,
        redis: None,
        permission: Vec::new(),
        disable_raw,
        read_only: false,
        allow_other: false,
        uid: 1000,
        gid: 100,
        chmod: 0o755,
        max_results,
    }
}

fn mounted(disable_raw: bool, max_results: i64) -> KVFS {
    let mut fs = KVFS::new(config(disable_raw, max_results));
    fs.init_static_dirs();
    fs
}

fn do_lookup(fs: &mut KVFS, d: &MapDriver, parent: u64, name: &str) -> Result<fusekv::fs::AttrRecord, Errno> {
    match fs.lookup(parent, Some(name.to_string())) {
        Outcome::Done(r) => r,
        Outcome::Call(DriverCall::GetByName { name, ino }) => {
            let got = d.get_by_name(name.clone(), ino);
            fs.lookup_fetched(name, ino, got)
        }
        Outcome::Call(other) => panic!("unexpected call {:?}", other),
    }
}

fn do_getattr(fs: &mut KVFS, d: &MapDriver, ino: u64) -> Result<fusekv::fs::AttrRecord, Errno> {
    match fs.getattr(ino) {
        Outcome::Done(r) => r,
        Outcome::Call(DriverCall::GetByName { name, ino }) => {
            let got = d.get_by_name(name, ino);
            fs.getattr_fetched(ino, got)
        }
        Outcome::Call(DriverCall::GetByIno { ino }) => {
            let got = d.get_by_ino(ino);
            fs.getattr_fetched(ino, got)
        }
        Outcome::Call(other) => panic!("unexpected call {:?}", other),
    }
}

fn do_read(fs: &KVFS, d: &MapDriver, ino: u64, offset: i64, size: u32) -> Result<Vec<u8>, Errno> {
    match fs.read(ino, 7, offset, size) {
        Outcome::Done(r) => r,
        Outcome::Call(DriverCall::Read { ino, fh, offset }) => {
            KVFS::read_fetched(offset, size, d.read(ino, fh, offset))
        }
        Outcome::Call(other) => panic!("unexpected call {:?}", other),
    }
}

fn do_readdir(fs: &mut KVFS, d: &MapDriver, ino: u64, offset: i64) -> Result<Vec<DirListing>, Errno> {
    match fs.readdir(ino, offset) {
        Outcome::Done(r) => r,
        Outcome::Call(DriverCall::ListKeys { offset: o }) => {
            let got = d.list_keys(o);
            fs.readdir_fetched(offset, got)
        }
        Outcome::Call(other) => panic!("unexpected call {:?}", other),
    }
}

fn names(l: &[DirListing]) -> Vec<String> {
    l.iter().map(|e| e.name.clone()).collect()
}

#[test]
fn cold_lookup_then_read() {
    let d = MapDriver::new(&[("hello", "world")]);
    let mut fs = mounted(false, 1000);
    let attr = do_lookup(&mut fs, &d, KV_DIR_INO, "hello").unwrap();
    assert_eq!(attr.size, 6);
    assert_eq!(attr.perm, 0o755);
    assert_eq!(attr.kind, FileKind::RegularFile);
    assert_eq!(attr.ino, assign(b"hello"));
    assert_eq!(attr.uid, 1000);
    assert_eq!(attr.gid, 100);
    assert_eq!(attr.nlink, 1);
    assert_eq!(attr.blksize, 512);
    let data = do_read(&fs, &d, attr.ino, 0, 4096).unwrap();
    assert_eq!(data, b"world\n".to_vec());
}

#[test]
fn listing_cap() {
    let keys: Vec<String> = (0..10).map(|i| format!("k{}", i)).collect();
    let pairs: Vec<(&str, &str)> = keys.iter().map(|k| (k.as_str(), "v")).collect();
    let d = MapDriver::new(&pairs);
    let mut fs = mounted(false, 3);
    let first = do_readdir(&mut fs, &d, KV_DIR_INO, 0).unwrap();
    assert_eq!(first.len(), 5);
    assert_eq!(first[0].name, "..");
    assert_eq!(first[0].ino, ROOT_INO);
    assert_eq!(first[1].name, ".");
    assert_eq!(first[1].ino, KV_DIR_INO);
    for e in &first[2..] {
        assert!(keys.contains(&e.name));
        assert!(e.ino >= KV_START && e.ino < KV_END);
        assert_eq!(e.kind, FileKind::RegularFile);
    }
    let second = do_readdir(&mut fs, &d, KV_DIR_INO, 0).unwrap();
    for (a, b) in first.iter().zip(second.iter()) {
        assert_eq!(a.name, b.name);
        assert_eq!(a.ino, b.ino);
    }
}

#[test]
fn disabled_raw() {
    let d = MapDriver::new(&[]);
    let mut fs = mounted(true, 1000);
    assert_eq!(do_getattr(&mut fs, &d, RAW_INO), Err(Errno::NotFound));
    assert_eq!(do_lookup(&mut fs, &d, ROOT_INO, "raw"), Err(Errno::NotFound));
    let l = do_readdir(&mut fs, &d, ROOT_INO, 0).unwrap();
    assert_eq!(names(&l), vec!["..", "lock", "lock:help", "kv", "kv:help"]);
}

#[test]
fn driver_transient_failure() {
    let mut d = MapDriver::new(&[("anykey", "x")]);
    d.fail = true;
    let mut fs = mounted(false, 1000);
    assert_eq!(do_lookup(&mut fs, &d, KV_DIR_INO, "anykey"), Err(Errno::TryAgain));
    d.fail = false;
    let attr = do_lookup(&mut fs, &d, KV_DIR_INO, "anykey").unwrap();
    assert_eq!(attr.size, 2);
}

#[test]
fn unknown_inode() {
    let d = MapDriver::new(&[]);
    let mut fs = mounted(false, 1000);
    assert_eq!(do_getattr(&mut fs, &d, 999_999_999), Err(Errno::NotFound));
    let kv_ino = KV_START + 999_999_999;
    match fs.getattr(kv_ino) {
        Outcome::Call(DriverCall::GetByIno { ino }) => assert_eq!(ino, kv_ino),
        other => panic!("unexpected {:?}", other),
    }
    assert_eq!(do_getattr(&mut fs, &d, kv_ino), Err(Errno::NotFound));
}

#[test]
fn partial_read() {
    let d = MapDriver::new(&[("six", "abcdef")]);
    let mut fs = mounted(false, 1000);
    let attr = do_lookup(&mut fs, &d, KV_DIR_INO, "six").unwrap();
    assert_eq!(attr.size, 7);
    assert_eq!(do_read(&fs, &d, attr.ino, 3, 10).unwrap(), b"def\n".to_vec());
}

#[test]
fn assign_is_deterministic_and_in_range() {
    for k in [&b""[..], b"hello", b"k0", &[0xffu8, 0x00, 0x80][..]] {
        let a = assign(k);
        assert_eq!(a, assign(k));
        assert!(a >= KV_START && a < KV_END);
        assert_eq!(a, seahash::hash(k) % (KV_END - KV_START) + KV_START);
    }
}

#[test]
fn kv_ino_from_hash_values() {
    assert_eq!(kv_ino_from_hash(0), KV_START);
    assert_eq!(kv_ino_from_hash(5), KV_START + 5);
    assert_eq!(kv_ino_from_hash(100_000_000_000_000), KV_START);
    assert_eq!(kv_ino_from_hash(u64::MAX), u64::MAX % 100_000_000_000_000 + KV_START);
}

#[test]
fn root_listing_with_raw() {
    let d = MapDriver::new(&[("a", "b")]);
    let mut fs = mounted(false, 1000);
    let l = do_readdir(&mut fs, &d, ROOT_INO, 0).unwrap();
    assert_eq!(names(&l), vec!["..", "raw", "raw:help", "lock", "lock:help", "kv", "kv:help"]);
    let offsets: Vec<u64> = l.iter().map(|e| e.next_offset).collect();
    assert_eq!(offsets, vec![1, 2, 3, 4, 5, 6, 7]);
}

#[test]
fn root_listing_from_offset() {
    let d = MapDriver::new(&[]);
    let mut fs = mounted(false, 1000);
    let l = do_readdir(&mut fs, &d, ROOT_INO, 2).unwrap();
    assert_eq!(names(&l), vec!["raw:help", "lock", "lock:help", "kv", "kv:help"]);
    assert_eq!(l[0].next_offset, 3);
    assert!(do_readdir(&mut fs, &d, ROOT_INO, 50).unwrap().is_empty());
}

#[test]
fn root_entries_answer_getattr() {
    let d = MapDriver::new(&[]);
    let mut fs = mounted(false, 1000);
    let l = do_readdir(&mut fs, &d, ROOT_INO, 0).unwrap();
    for e in &l {
        let attr = do_getattr(&mut fs, &d, e.ino).unwrap();
        assert_eq!(attr.ino, e.ino);
        assert_eq!(attr.kind, e.kind);
    }
    let help = do_getattr(&mut fs, &d, RAW_HELP_INO).unwrap();
    assert_eq!(help.size, RAW_HELP.len() as u64);
    assert_eq!(do_getattr(&mut fs, &d, LOCK_DIR_INO).unwrap().kind, FileKind::Directory);
    assert_eq!(do_getattr(&mut fs, &d, KV_HELP_INO).unwrap().kind, FileKind::RegularFile);
    assert_eq!(do_getattr(&mut fs, &d, 5), Err(Errno::NotFound));
}

#[test]
fn static_tree_absent_before_init() {
    let d = MapDriver::new(&[]);
    let mut fs = KVFS::new(config(false, 1000));
    assert_eq!(do_getattr(&mut fs, &d, ROOT_INO), Err(Errno::NotFound));
    assert_eq!(names(&do_readdir(&mut fs, &d, ROOT_INO, 0).unwrap()), vec![".."]);
}

#[test]
fn lookup_fills_resolver() {
    let d = MapDriver::new(&[("hello", "world")]);
    let mut fs = mounted(false, 1000);
    let ino = assign(b"hello");
    match fs.getattr(ino) {
        Outcome::Call(DriverCall::GetByIno { .. }) => {}
        other => panic!("unexpected {:?}", other),
    }
    do_lookup(&mut fs, &d, KV_DIR_INO, "hello").unwrap();
    match fs.getattr(ino) {
        Outcome::Call(DriverCall::GetByName { name, ino: i }) => {
            assert_eq!(name, "hello");
            assert_eq!(i, ino);
        }
        other => panic!("unexpected {:?}", other),
    }
    assert_eq!(do_getattr(&mut fs, &d, ino).unwrap().size, 6);
}

#[test]
fn readdir_fills_resolver() {
    let d = MapDriver::new(&[("alpha", "1"), ("beta", "22")]);
    let mut fs = mounted(false, 1000);
    do_readdir(&mut fs, &d, KV_DIR_INO, 0).unwrap();
    match fs.getattr(assign(b"beta")) {
        Outcome::Call(DriverCall::GetByName { name, .. }) => assert_eq!(name, "beta"),
        other => panic!("unexpected {:?}", other),
    }
    assert_eq!(do_getattr(&mut fs, &d, assign(b"alpha")).unwrap().size, 2);
}

#[test]
fn read_size_law() {
    let v = b"some value".to_vec();
    let full = {
        let mut f = v.clone();
        f.push(b'\n');
        f
    };
    for o in 0..=full.len() {
        let got = KVFS::read_fetched(o as i64, 4096, Ok(Some(v.clone()))).unwrap();
        assert_eq!(got, full[o..].to_vec());
    }
    assert_eq!(KVFS::read_fetched(100, 4096, Ok(Some(v.clone()))).unwrap(), Vec::<u8>::new());
    assert_eq!(KVFS::read_fetched(0, 3, Ok(Some(v.clone()))).unwrap(), b"som".to_vec());
    assert_eq!(KVFS::read_fetched(0, 10, Ok(None)), Err(Errno::NotFound));
    assert_eq!(
        KVFS::read_fetched(0, 10, Err(DriverError { message: String::new() })),
        Err(Errno::TryAgain)
    );
}

#[test]
fn empty_value_reads_newline() {
    let d = MapDriver::new(&[("e", "")]);
    let mut fs = mounted(false, 1000);
    let attr = do_lookup(&mut fs, &d, KV_DIR_INO, "e").unwrap();
    assert_eq!(attr.size, 1);
    assert_eq!(do_read(&fs, &d, attr.ino, 0, 100).unwrap(), b"\n".to_vec());
}

#[test]
fn max_results_zero_and_negative() {
    let d = MapDriver::new(&[("a", "1"), ("b", "2"), ("c", "3")]);
    let mut fs = mounted(false, 0);
    assert_eq!(names(&do_readdir(&mut fs, &d, KV_DIR_INO, 0).unwrap()), vec!["..", "."]);
    let mut fs = mounted(false, -5);
    assert_eq!(names(&do_readdir(&mut fs, &d, KV_DIR_INO, 0).unwrap()), vec!["..", ".", "a", "b", "c"]);
    let mut fs = mounted(false, 2);
    let l = do_readdir(&mut fs, &d, KV_DIR_INO, 0).unwrap();
    assert_eq!(names(&l), vec!["..", ".", "a", "b"]);
    assert_eq!(l[2].ino, assign(b"a"));
}

#[test]
fn readdir_errors() {
    let mut d = MapDriver::new(&[("a", "1")]);
    let mut fs = mounted(false, 1000);
    assert_eq!(do_readdir(&mut fs, &d, LOCK_DIR_INO, 0).unwrap_err(), Errno::NotFound);
    d.fail = true;
    assert_eq!(do_readdir(&mut fs, &d, KV_DIR_INO, 0).unwrap_err(), Errno::TryAgain);
}

#[test]
fn lookup_edge_cases() {
    let d = MapDriver::new(&[("x", "y")]);
    let mut fs = mounted(false, 1000);
    match fs.lookup(KV_DIR_INO, None) {
        Outcome::Done(r) => assert_eq!(r, Err(Errno::NotFound)),
        other => panic!("unexpected {:?}", other),
    }
    assert_eq!(do_lookup(&mut fs, &d, KV_DIR_INO, ""), Err(Errno::NotFound));
    assert_eq!(do_lookup(&mut fs, &d, KV_DIR_INO, "missing"), Err(Errno::NotFound));
    assert_eq!(do_lookup(&mut fs, &d, LOCK_DIR_INO, "x"), Err(Errno::NotFound));
    assert_eq!(do_lookup(&mut fs, &d, ROOT_INO, "nothing"), Err(Errno::NotFound));
    let kv = do_lookup(&mut fs, &d, ROOT_INO, "kv").unwrap();
    assert_eq!(kv.ino, KV_DIR_INO);
    assert_eq!(kv.kind, FileKind::Directory);
    assert_eq!(kv.size, 0);
    let help = do_lookup(&mut fs, &d, ROOT_INO, "lock:help").unwrap();
    assert_eq!(help.ino, LOCK_HELP_INO);
}

#[test]
fn help_file_reads() {
    let d = MapDriver::new(&[]);
    let fs = mounted(false, 1000);
    assert_eq!(do_read(&fs, &d, RAW_HELP_INO, 0, 4096).unwrap(), RAW_HELP.as_bytes().to_vec());
    assert_eq!(do_read(&fs, &d, RAW_HELP_INO, 5, 4).unwrap(), RAW_HELP.as_bytes()[5..9].to_vec());
    assert_eq!(do_read(&fs, &d, RAW_HELP_INO, 10_000, 4).unwrap(), Vec::<u8>::new());
    assert_eq!(do_read(&fs, &d, RAW_INO, 0, 10), Err(Errno::NotFound));
    assert_eq!(do_read(&fs, &d, LOCK_DIR_INO, 0, 10), Err(Errno::NotFound));
    assert_eq!(do_read(&fs, &d, 20_000, 0, 10), Err(Errno::NotFound));
}

#[test]
fn getattr_driver_error() {
    let mut d = MapDriver::new(&[("k", "v")]);
    let mut fs = mounted(false, 1000);
    do_lookup(&mut fs, &d, KV_DIR_INO, "k").unwrap();
    d.fail = true;
    assert_eq!(do_getattr(&mut fs, &d, assign(b"k")), Err(Errno::TryAgain));
    assert_eq!(do_read(&fs, &d, assign(b"k"), 0, 10), Err(Errno::TryAgain));
}
