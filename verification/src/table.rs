use vstd::prelude::*;
use crate::addr::Address;

verus! {

/// Distinctness of the keys of an entry sequence.
pub open spec fn distinct_keys<V>(s: Seq<(Address, V)>) -> bool {
    forall|i: int, j: int|
        0 <= i < j < s.len() ==> (#[trigger] s[i]).0 != (#[trigger] s[j]).0
}

/// The map an entry sequence stands for.
pub open spec fn entries_map<V>(s: Seq<(Address, V)>) -> Map<Address, V>
    decreases s.len(),
{
    if s.len() == 0 {
        Map::empty()
    } else {
        entries_map(s.drop_last()).insert(s.last().0, s.last().1)
    }
}

/// One kind of record in the host ledger's account storage, modeled as an
/// association table keyed by `Address`.  Records are never removed; keys
/// are unique; the table is viewed as a `Map` from addresses to records.
pub struct Table<V> {
    entries: Vec<(Address, V)>,
}

impl<V> View for Table<V> {
    type V = Map<Address, V>;

    closed spec fn view(&self) -> Map<Address, V> {
        entries_map(self.entries@)
    }
}

/// A key is in the map of an entry sequence exactly when some entry carries it.
proof fn lemma_entries_dom<V>(s: Seq<(Address, V)>, k: Address)
    ensures
        entries_map(s).dom().contains(k) <==> exists|i: int| 0 <= i < s.len() && (#[trigger] s[i]).0 == k,
    decreases s.len(),
{
    if s.len() > 0 {
        lemma_entries_dom(s.drop_last(), k);
        if s.last().0 == k {
            assert(s[s.len() - 1].0 == k);
        } else if entries_map(s).dom().contains(k) {
            let i = choose|i: int| 0 <= i < s.drop_last().len() && (#[trigger] s.drop_last()[i]).0 == k;
            assert(s[i].0 == k);
        } else {
            assert forall|i: int| 0 <= i < s.len() implies (#[trigger] s[i]).0 != k by {
                if i < s.len() - 1 {
                    assert(s.drop_last()[i] == s[i]);
                }
            }
        }
    }
}

/// Under distinct keys, the map sends each entry's key to that entry's value.
proof fn lemma_entries_at<V>(s: Seq<(Address, V)>, i: int)
    requires
        distinct_keys(s),
        0 <= i < s.len(),
    ensures
        entries_map(s).dom().contains(s[i].0),
        entries_map(s)[s[i].0] == s[i].1,
    decreases s.len(),
{
    if i == s.len() - 1 {
    } else {
        assert(s.drop_last()[i] == s[i]);
        lemma_entries_at(s.drop_last(), i);
        assert(s[i].0 != s.last().0);
    }
}

impl<V: Copy> Table<V> {
    /// Keys are pairwise distinct, so the entry sequence and the map agree.
    pub closed spec fn wf(self) -> bool {
        distinct_keys(self.entries@)
    }

    pub fn new() -> (r: Table<V>)
        ensures
            r.wf(),
            r@ == Map::<Address, V>::empty(),
    {
        Table { entries: Vec::new() }
    }

    pub fn get(&self, k: Address) -> (r: Option<V>)
        requires
            self.wf(),
        ensures
            match r {
                Some(v) => self@.dom().contains(k) && self@[k] == v,
                None => !self@.dom().contains(k),
            },
    {
        let n = self.entries.len();
        let mut i: usize = 0;
        while i < n
            invariant
                n == self.entries@.len(),
                0 <= i <= n,
                self.wf(),
                forall|j: int| 0 <= j < i ==> (#[trigger] self.entries@[j]).0 != k,
            decreases n - i,
        {
            if self.entries[i].0 == k {
                proof {
                    lemma_entries_at(self.entries@, i as int);
                }
                return Some(self.entries[i].1);
            }
            i += 1;
        }
        proof {
            lemma_entries_dom(self.entries@, k);
        }
        None
    }

    pub fn contains(&self, k: Address) -> (r: bool)
        requires
            self.wf(),
        ensures
            r == self@.dom().contains(k),
    {
        self.get(k).is_some()
    }

    /// Create a record at a fresh address.
    pub fn put(&mut self, k: Address, v: V)
        requires
            old(self).wf(),
            !old(self)@.dom().contains(k),
        ensures
            final(self).wf(),
            final(self)@ == old(self)@.insert(k, v),
    {
        proof {
            lemma_entries_dom(self.entries@, k);
            assert(self.entries@.push((k, v)).drop_last() =~= self.entries@);
        }
        self.entries.push((k, v));
    }

    /// Overwrite the record at an existing address.
    pub fn set(&mut self, k: Address, v: V)
        requires
            old(self).wf(),
            old(self)@.dom().contains(k),
        ensures
            final(self).wf(),
            final(self)@ == old(self)@.insert(k, v),
    {
        let n = self.entries.len();
        let mut i: usize = 0;
        proof {
            lemma_entries_dom(self.entries@, k);
        }
        while i < n
            invariant
                n == self.entries@.len(),
                0 <= i <= n,
                self.wf(),
                self@ == old(self)@,
                self.entries@ == old(self).entries@,
                exists|j: int| 0 <= j < n && (#[trigger] self.entries@[j]).0 == k,
                forall|j: int| 0 <= j < i ==> (#[trigger] self.entries@[j]).0 != k,
            decreases n - i,
        {
            if self.entries[i].0 == k {
                let ghost s0 = self.entries@;
                self.entries[i] = (k, v);
                proof {
                    lemma_set_at(s0, i as int, v);
                }
                return;
            }
            i += 1;
        }
        proof {
            assert(false);
        }
    }

    /// A copy with the same records; the model's stand-in for the host's
    /// transactional rollback (work on the copy, commit only on success).
    pub fn duplicate(&self) -> (r: Table<V>)
        ensures
            r.wf() == self.wf(),
            r@ == self@,
    {
        let n = self.entries.len();
        let mut out: Vec<(Address, V)> = Vec::new();
        let mut i: usize = 0;
        while i < n
            invariant
                n == self.entries@.len(),
                0 <= i <= n,
                out@ == self.entries@.subrange(0, i as int),
            decreases n - i,
        {
            out.push(self.entries[i]);
            proof {
                assert(out@ =~= self.entries@.subrange(0, (i + 1) as int));
            }
            i += 1;
        }
        proof {
            assert(out@ =~= self.entries@);
        }
        Table { entries: out }
    }
}

/// Replacing the entry that carries `k` updates the map at `k` alone.
proof fn lemma_set_at<V>(s: Seq<(Address, V)>, i: int, v: V)
    requires
        distinct_keys(s),
        0 <= i < s.len(),
    ensures
        distinct_keys(s.update(i, (s[i].0, v))),
        entries_map(s.update(i, (s[i].0, v))) == entries_map(s).insert(s[i].0, v),
    decreases s.len(),
{
    let k = s[i].0;
    let t = s.update(i, (k, v));
    assert forall|a: int, b: int| 0 <= a < b < t.len() implies (#[trigger] t[a]).0 != (#[trigger] t[b]).0 by {
        assert(s[a].0 != s[b].0);
    }
    if i == s.len() - 1 {
        assert(t.drop_last() =~= s.drop_last());
        assert(entries_map(t) == entries_map(s.drop_last()).insert(k, v));
        assert(entries_map(s).insert(k, v) == entries_map(s.drop_last()).insert(s.last().0, s.last().1).insert(k, v));
        assert(entries_map(s.drop_last()).insert(s.last().0, s.last().1).insert(k, v)
            =~= entries_map(s.drop_last()).insert(k, v));
    } else {
        assert(t.drop_last() =~= s.drop_last().update(i, (k, v)));
        assert(s.drop_last()[i] == s[i]);
        lemma_set_at(s.drop_last(), i, v);
        assert(t.last() == s.last());
        assert(entries_map(t) == entries_map(s.drop_last()).insert(k, v).insert(s.last().0, s.last().1));
        assert(k != s.last().0);
        assert(entries_map(s.drop_last()).insert(k, v).insert(s.last().0, s.last().1)
            =~= entries_map(s.drop_last()).insert(s.last().0, s.last().1).insert(k, v));
    }
}

} // verus!
