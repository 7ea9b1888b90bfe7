//! The resolver: a bounded, least-recently-used map from key-range inodes back
//! to the keys they were assigned from.

use vstd::prelude::*;

verus! {

/// Default number of entries the resolver holds before it evicts.
pub const DEFAULT_CAPACITY: usize = 1_000_000;

/// The abstract form of a run of cache entries.
pub open spec fn entries_view(v: Seq<(u64, String)>) -> Seq<(u64, Seq<char>)> {
    v.map_values(|e: (u64, String)| (e.0, e.1@))
}

/// The abstract form of an optional key.
pub open spec fn opt_key_view(o: Option<String>) -> Option<Seq<char>> {
    match o {
        Some(k) => Some(k@),
        None => None,
    }
}

/// The entries of `s` whose inode is not `ino`, in their order.
pub open spec fn without_ino(s: Seq<(u64, Seq<char>)>, ino: u64) -> Seq<(u64, Seq<char>)>
    decreases s.len(),
{
    if s.len() == 0 {
        s
    } else {
        let rest = without_ino(s.drop_last(), ino);
        if s.last().0 == ino {
            rest
        } else {
            rest.push(s.last())
        }
    }
}

/// The entries after `(ino, key)` has been recorded as the most recent one,
/// evicting the least recent entry when the capacity would be exceeded.
pub open spec fn remembered(s: Seq<(u64, Seq<char>)>, capacity: nat, ino: u64, key: Seq<char>) -> Seq<
    (u64, Seq<char>),
> {
    let t = without_ino(s, ino).push((ino, key));
    if t.len() > capacity {
        t.drop_first()
    } else {
        t
    }
}

/// The key most recently recorded for `ino`, if any.
pub open spec fn find_key(s: Seq<(u64, Seq<char>)>, ino: u64) -> Option<Seq<char>>
    decreases s.len(),
{
    if s.len() == 0 {
        None
    } else if s.last().0 == ino {
        Some(s.last().1)
    } else {
        find_key(s.drop_last(), ino)
    }
}

proof fn lemma_without_ino_len(s: Seq<(u64, Seq<char>)>, ino: u64)
    ensures
        without_ino(s, ino).len() <= s.len(),
    decreases s.len(),
{
    if s.len() > 0 {
        lemma_without_ino_len(s.drop_last(), ino);
    }
}

/// A bounded map from inode to key that forgets its least recently recorded
/// entry first.
pub struct Resolver {
    entries: Vec<(u64, String)>,
    capacity: usize,
}

impl View for Resolver {
    type V = Seq<(u64, Seq<char>)>;

    /// The entries, least recently recorded first.
    closed spec fn view(&self) -> Seq<(u64, Seq<char>)> {
        entries_view(self.entries@)
    }
}

impl Resolver {
    /// The number of entries the resolver keeps at most.
    pub closed spec fn spec_capacity(&self) -> nat {
        self.capacity as nat
    }

    /// Well-formedness: never more entries than the capacity.
    pub closed spec fn wf(&self) -> bool {
        self.entries.len() <= self.capacity
    }

    /// An empty resolver that holds at most `capacity` entries.
    pub fn new(capacity: usize) -> (r: Resolver)
        ensures
            r.wf(),
            r@ == Seq::<(u64, Seq<char>)>::empty(),
            r.spec_capacity() == capacity,
    {
        let r = Resolver { entries: Vec::new(), capacity };
        assert(r@ =~= Seq::<(u64, Seq<char>)>::empty());
        r
    }

    /// The number of entries the resolver keeps at most.
    pub fn capacity(&self) -> (r: usize)
        ensures
            r == self.spec_capacity(),
    {
        self.capacity
    }

    /// Records `key` as the key of `ino`, as the most recent entry.
    pub fn remember(&mut self, ino: u64, key: String)
        requires
            old(self).wf(),
        ensures
            final(self).wf(),
            final(self).spec_capacity() == old(self).spec_capacity(),
            final(self)@ == remembered(old(self)@, old(self).spec_capacity(), ino, key@),
    {
        let ghost s0 = self@;
        let n = self.entries.len();
        let mut kept: Vec<(u64, String)> = Vec::new();
        let mut i: usize = 0;
        while i < n
            invariant
                0 <= i <= n,
                n == self.entries.len(),
                s0 == entries_view(self.entries@),
                entries_view(kept@) == without_ino(s0.take(i as int), ino),
            decreases n - i,
        {
            let e_ino = self.entries[i].0;
            proof {
                assert(s0.take(i + 1).drop_last() =~= s0.take(i as int));
                assert(s0.take(i + 1).last() == s0[i as int]);
            }
            if e_ino != ino {
                let k = self.entries[i].1.clone();
                kept.push((e_ino, k));
                assert(entries_view(kept@) =~= without_ino(s0.take(i + 1), ino));
            }
            i += 1;
        }
        assert(s0.take(n as int) =~= s0);
        proof {
            lemma_without_ino_len(s0, ino);
        }
        let ghost t = without_ino(s0, ino).push((ino, key@));
        kept.push((ino, key));
        assert(entries_view(kept@) =~= t);
        if kept.len() > self.capacity {
            kept.remove(0);
            assert(entries_view(kept@) =~= t.drop_first());
        }
        self.entries = kept;
    }

    /// The key recorded for `ino`, if the resolver still holds one.
    pub fn resolve(&self, ino: u64) -> (r: Option<String>)
        ensures
            opt_key_view(r) == find_key(self@, ino),
    {
        let ghost s = self@;
        let mut i: usize = self.entries.len();
        assert(s.take(i as int) =~= s);
        while i > 0
            invariant
                i <= self.entries.len(),
                s == entries_view(self.entries@),
                find_key(s, ino) == find_key(s.take(i as int), ino),
            decreases i,
        {
            proof {
                assert(s.take(i as int).drop_last() =~= s.take(i - 1));
                assert(s.take(i as int).last() == s[i - 1]);
            }
            if self.entries[i - 1].0 == ino {
                return Some(self.entries[i - 1].1.clone());
            }
            i -= 1;
        }
        None
    }
}

/// Once `(ino, key)` is recorded in a resolver that can hold at least one
/// entry, resolving `ino` yields `key`.
pub proof fn lemma_remembered_resolves(s: Seq<(u64, Seq<char>)>, capacity: nat, ino: u64, key: Seq<char>)
    requires
        capacity > 0,
    ensures
        find_key(remembered(s, capacity, ino, key), ino) == Some(key),
{
    let t = without_ino(s, ino).push((ino, key));
    if t.len() > capacity {
        assert(t.drop_first().last() == (ino, key));
    }
}

/// Dropping the entries of one inode leaves what every other inode resolves to.
pub proof fn lemma_without_ino_find(s: Seq<(u64, Seq<char>)>, b: u64, a: u64)
    requires
        a != b,
    ensures
        find_key(without_ino(s, b), a) == find_key(s, a),
    decreases s.len(),
{
    if s.len() > 0 {
        lemma_without_ino_find(s.drop_last(), b, a);
        let rest = without_ino(s.drop_last(), b);
        if s.last().0 != b {
            assert(rest.push(s.last()).drop_last() =~= rest);
        }
    }
}

/// Recording an entry adds at most one entry.
pub proof fn lemma_remembered_len(s: Seq<(u64, Seq<char>)>, capacity: nat, ino: u64, key: Seq<char>)
    ensures
        remembered(s, capacity, ino, key).len() <= s.len() + 1,
{
    lemma_without_ino_len(s, ino);
}

/// Recording an entry for another inode, while the resolver is below its
/// capacity, leaves what `a` resolves to.
pub proof fn lemma_remembered_keeps(s: Seq<(u64, Seq<char>)>, capacity: nat, b: u64, key: Seq<char>, a: u64)
    requires
        a != b,
        s.len() < capacity,
    ensures
        find_key(remembered(s, capacity, b, key), a) == find_key(s, a),
{
    lemma_without_ino_len(s, b);
    let t = without_ino(s, b).push((b, key));
    assert(t.drop_last() =~= without_ino(s, b));
    lemma_without_ino_find(s, b, a);
}

} // verus!
