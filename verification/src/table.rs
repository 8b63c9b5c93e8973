//! Keyed record storage shared by the mint registry and the account ledger.
//!
//! A [`Table`] holds at most one record per [`Identity`] and denotes the
//! finite map from identities to records.  All relations in the core are
//! looked up through such a map, never through direct pointers.

use vstd::prelude::*;

use crate::identity::Identity;

verus! {

/// One stored record: an identity key and the value filed under it.
#[derive(Debug)]
pub struct TableEntry<V> {
    /// The key the record is filed under.
    pub id: Identity,
    /// The stored record.
    pub val: V,
}

/// The map a sequence of entries denotes.  A later entry would shadow an
/// earlier one with the same key; a well-formed table never repeats a key.
pub open spec fn entries_map<V>(s: Seq<TableEntry<V>>) -> Map<Identity, V>
    decreases s.len(),
{
    if s.len() == 0 {
        Map::empty()
    } else {
        entries_map(s.drop_last()).insert(s.last().id, s.last().val)
    }
}

/// No key occurs twice in the sequence of entries.
pub open spec fn entries_unique<V>(s: Seq<TableEntry<V>>) -> bool {
    forall|i: int, j: int| 0 <= i < j < s.len() ==> s[i].id != s[j].id
}

/// Some entry of `s` carries the key `k`.
pub open spec fn entries_have_key<V>(s: Seq<TableEntry<V>>, k: Identity) -> bool {
    exists|i: int| 0 <= i < s.len() && s[i].id == k
}

proof fn lemma_entries_map_domain<V>(s: Seq<TableEntry<V>>, k: Identity)
    ensures
        entries_map(s).contains_key(k) <==> entries_have_key(s, k),
    decreases s.len(),
{
    if s.len() > 0 {
        let prefix = s.drop_last();
        lemma_entries_map_domain(prefix, k);
        if s.last().id == k {
            assert(s[s.len() - 1].id == k);
        } else {
            if entries_have_key(prefix, k) {
                let i = choose|i: int| 0 <= i < prefix.len() && prefix[i].id == k;
                assert(s[i].id == k);
            }
            if entries_have_key(s, k) {
                let i = choose|i: int| 0 <= i < s.len() && s[i].id == k;
                assert(prefix[i].id == k);
            }
        }
    }
}

proof fn lemma_entries_map_at_index<V>(s: Seq<TableEntry<V>>, i: int)
    requires
        entries_unique(s),
        0 <= i < s.len(),
    ensures
        entries_map(s).contains_key(s[i].id),
        entries_map(s)[s[i].id] == s[i].val,
    decreases s.len(),
{
    let prefix = s.drop_last();
    if i < s.len() - 1 {
        lemma_entries_map_at_index(prefix, i);
        assert(s[s.len() - 1].id != s[i].id);
    }
}

proof fn lemma_entries_map_push<V>(s: Seq<TableEntry<V>>, e: TableEntry<V>)
    ensures
        entries_map(s.push(e)) == entries_map(s).insert(e.id, e.val),
{
    assert(s.push(e).drop_last() =~= s);
}

proof fn lemma_entries_map_update<V>(s: Seq<TableEntry<V>>, i: int, e: TableEntry<V>)
    requires
        entries_unique(s),
        0 <= i < s.len(),
        e.id == s[i].id,
    ensures
        entries_map(s.update(i, e)) == entries_map(s).insert(e.id, e.val),
    decreases s.len(),
{
    let prefix = s.drop_last();
    if i == s.len() - 1 {
        assert(s.update(i, e).drop_last() =~= prefix);
        assert(s.update(i, e).last() == e);
        assert(entries_map(prefix).insert(s.last().id, s.last().val).insert(e.id, e.val)
            =~= entries_map(prefix).insert(e.id, e.val));
    } else {
        assert(s.update(i, e).drop_last() =~= prefix.update(i, e));
        lemma_entries_map_update(prefix, i, e);
        assert(s.last().id != e.id);
        assert(entries_map(prefix).insert(e.id, e.val).insert(s.last().id, s.last().val)
            =~= entries_map(prefix).insert(s.last().id, s.last().val).insert(e.id, e.val));
        assert(s.update(i, e).last() == s.last());
    }
}

/// At most one record per identity, read and written through its key.
pub struct Table<V> {
    /// The stored entries, each key at most once.
    pub entries: Vec<TableEntry<V>>,
}

impl<V> View for Table<V> {
    type V = Map<Identity, V>;

    open spec fn view(&self) -> Map<Identity, V> {
        entries_map(self.entries@)
    }
}

impl<V: Copy> Table<V> {
    /// No identity is filed twice.
    pub open spec fn wf(self) -> bool {
        entries_unique(self.entries@)
    }

    /// An empty table.
    pub fn new() -> (t: Table<V>)
        ensures
            t@ == Map::<Identity, V>::empty(),
            t.wf(),
    {
        Table { entries: Vec::new() }
    }

    /// Looks a record up by its key.
    pub fn get(&self, id: Identity) -> (r: Option<V>)
        requires
            self.wf(),
        ensures
            match r {
                Some(v) => self@.contains_key(id) && v == self@[id],
                None => !self@.contains_key(id),
            },
    {
        let n = self.entries.len();
        let mut i: usize = 0;
        while i < n
            invariant
                n == self.entries@.len(),
                i <= n,
                self.wf(),
                forall|j: int| 0 <= j < i ==> self.entries@[j].id != id,
            decreases n - i,
        {
            if self.entries[i].id == id {
                proof {
                    lemma_entries_map_at_index(self.entries@, i as int);
                }
                return Some(self.entries[i].val);
            }
            i = i + 1;
        }
        proof {
            lemma_entries_map_domain(self.entries@, id);
        }
        None
    }

    /// Reports whether a record is filed under `id`.
    pub fn contains(&self, id: Identity) -> (b: bool)
        requires
            self.wf(),
        ensures
            b == self@.contains_key(id),
    {
        self.get(id).is_some()
    }

    /// Files `val` under `id`, replacing whatever was filed there before.
    #[verifier::loop_isolation(false)]
    pub fn upsert(&mut self, id: Identity, val: V)
        requires
            old(self).wf(),
        ensures
            final(self).wf(),
            final(self)@ == old(self)@.insert(id, val),
    {
        let ghost orig = self.entries@;
        let n = self.entries.len();
        let mut i: usize = 0;
        while i < n
            invariant
                self.entries@ == orig,
                n == orig.len(),
                i <= n,
                entries_unique(orig),
                forall|j: int| 0 <= j < i ==> orig[j].id != id,
            decreases n - i,
        {
            if self.entries[i].id == id {
                self.entries[i] = TableEntry { id, val };
                proof {
                    lemma_entries_map_update(orig, i as int, TableEntry { id, val });
                    assert forall|a: int, b: int|
                        0 <= a < b < self.entries@.len() implies self.entries@[a].id
                        != self.entries@[b].id by {
                        assert(orig[a].id != orig[b].id);
                    }
                }
                return ;
            }
            i = i + 1;
        }
        self.entries.push(TableEntry { id, val });
        proof {
            lemma_entries_map_push(orig, TableEntry { id, val });
            assert forall|a: int, b: int|
                0 <= a < b < self.entries@.len() implies self.entries@[a].id
                != self.entries@[b].id by {
                if b < orig.len() {
                    assert(orig[a].id != orig[b].id);
                } else {
                    assert(orig[a].id != id);
                }
            }
        }
    }
}

} // verus!
