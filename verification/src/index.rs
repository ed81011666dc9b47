//! The index from a party to the identifiers filed under it.

use vstd::prelude::*;
use crate::certificate::CertificateId;
use crate::identity::Identity;

verus! {

/// The views of a sequence of identifiers, in order.
pub open spec fn id_views(ids: Seq<CertificateId>) -> Seq<Seq<u8>> {
    ids.map_values(|id: CertificateId| id@)
}

/// `ids` with every occurrence of `id` left out, the rest in order.
pub open spec fn without(ids: Seq<Seq<u8>>, id: Seq<u8>) -> Seq<Seq<u8>>
    decreases ids.len(),
{
    if ids.len() == 0 {
        ids
    } else if ids.last() == id {
        without(ids.drop_last(), id)
    } else {
        without(ids.drop_last(), id).push(ids.last())
    }
}

/// What `without` keeps: exactly the members other than `id`.
pub proof fn lemma_without_contains(ids: Seq<Seq<u8>>, id: Seq<u8>, x: Seq<u8>)
    ensures
        without(ids, id).contains(x) <==> ids.contains(x) && x != id,
    decreases ids.len(),
{
    if ids.len() > 0 {
        let rest = ids.drop_last();
        lemma_without_contains(rest, id, x);
        let kept = without(rest, id);
        if ids.contains(x) && x != id {
            let i = choose|i: int| 0 <= i < ids.len() && ids[i] == x;
            if i < ids.len() - 1 {
                assert(rest[i] == x);
                let j = choose|j: int| 0 <= j < kept.len() && kept[j] == x;
                assert(without(ids, id)[j] == x);
            } else {
                assert(without(ids, id).last() == x);
            }
        }
        if without(ids, id).contains(x) {
            let j = choose|j: int| 0 <= j < without(ids, id).len() && without(ids, id)[j] == x;
            if ids.last() != id && j == kept.len() {
                assert(ids[ids.len() - 1] == x);
            } else {
                assert(kept[j] == x);
                let i = choose|i: int| 0 <= i < rest.len() && rest[i] == x;
                assert(ids[i] == x);
            }
        }
    }
}

/// Leaving an identifier out of a list without repetitions leaves no
/// repetitions.
pub proof fn lemma_without_no_duplicates(ids: Seq<Seq<u8>>, id: Seq<u8>)
    requires
        ids.no_duplicates(),
    ensures
        without(ids, id).no_duplicates(),
    decreases ids.len(),
{
    if ids.len() > 0 {
        let rest = ids.drop_last();
        lemma_without_no_duplicates(rest, id);
        if ids.last() != id {
            let kept = without(rest, id);
            lemma_without_contains(rest, id, ids.last());
            if rest.contains(ids.last()) {
                let i = choose|i: int| 0 <= i < rest.len() && rest[i] == ids.last();
                assert(ids[i] == ids[ids.len() - 1]);
            }
            assert forall|i: int, j: int|
                0 <= i < kept.len() + 1 && 0 <= j < kept.len() + 1 && i != j implies kept.push(
                ids.last(),
            )[i] != kept.push(ids.last())[j] by {
                if i == kept.len() {
                    assert(kept.contains(kept[j]) ==> kept[j] != ids.last());
                } else if j == kept.len() {
                    assert(kept.contains(kept[i]) ==> kept[i] != ids.last());
                }
            }
        }
    }
}

/// Appending an identifier that a list without repetitions does not hold
/// leaves it without repetitions.
pub proof fn lemma_push_fresh(list: Seq<Seq<u8>>, id: Seq<u8>)
    requires
        list.no_duplicates(),
        !list.contains(id),
    ensures
        list.push(id).no_duplicates(),
{
    let longer = list.push(id);
    assert forall|i: int, j: int|
        0 <= i < longer.len() && 0 <= j < longer.len() && i != j implies longer[i]
        != longer[j] by {
        if i < list.len() && j < list.len() {
        } else if i < list.len() {
            assert(list.contains(list[i]));
        } else {
            assert(list.contains(list[j]));
        }
    }
}

/// The identifiers filed under one key.
#[derive(Debug, PartialEq, Eq)]
pub struct IndexEntry {
    pub key: Identity,
    pub ids: Vec<CertificateId>,
}

impl View for IndexEntry {
    type V = (Seq<u8>, Seq<Seq<u8>>);

    open spec fn view(&self) -> (Seq<u8>, Seq<Seq<u8>>) {
        (self.key@, id_views(self.ids@))
    }
}

/// An index from a party to the identifiers filed under it, each list in
/// the order in which its identifiers were appended. A party with nothing
/// filed has the empty list.
#[derive(Debug)]
pub struct CertificateIndex {
    entries: Vec<IndexEntry>,
}

/// The entries of an index as contracts see them: each a party with the
/// identifiers filed under it.
pub type Entries = Seq<(Seq<u8>, Seq<Seq<u8>>)>;

/// The views of a sequence of entries, in order.
pub open spec fn entry_views(entries: Seq<IndexEntry>) -> Entries {
    entries.map_values(|entry: IndexEntry| entry@)
}

/// Whether `key` has an entry.
pub open spec fn has_entry(entries: Entries, key: Seq<u8>) -> bool {
    exists|i: int| 0 <= i < entries.len() && (#[trigger] entries[i]).0 == key
}

/// Where the entry of `key` stands.
pub open spec fn entry_of(entries: Entries, key: Seq<u8>) -> int {
    choose|i: int| 0 <= i < entries.len() && (#[trigger] entries[i]).0 == key
}

/// The identifiers filed under `key`: those of its entry, or none where
/// it has no entry.
pub open spec fn listed(entries: Entries, key: Seq<u8>) -> Seq<Seq<u8>> {
    if has_entry(entries, key) {
        entries[entry_of(entries, key)].1
    } else {
        Seq::empty()
    }
}

/// No party has two entries.
pub open spec fn distinct_keys(entries: Entries) -> bool {
    forall|i: int, j: int|
        0 <= i < entries.len() && 0 <= j < entries.len() && i != j ==> (#[trigger] entries[i]).0
            != (#[trigger] entries[j]).0
}

/// The index that a sequence of entries stands for.
pub open spec fn index_of_entries(entries: Entries) -> Map<Seq<u8>, Seq<Seq<u8>>> {
    Map::total(|key: Seq<u8>| listed(entries, key))
}

/// With distinct keys, the list of a party is that of its entry.
pub proof fn lemma_listed_at(entries: Entries, p: int)
    requires
        distinct_keys(entries),
        0 <= p < entries.len(),
    ensures
        has_entry(entries, entries[p].0),
        entry_of(entries, entries[p].0) == p,
        listed(entries, entries[p].0) == entries[p].1,
{
    assert(entries[p].0 == entries[p].0);
}

/// Replacing or adding the entry of `key` changes the list of `key` alone.
proof fn lemma_listed_after_change(
    before: Entries,
    after: Entries,
    key: Seq<u8>,
    p: int,
    other: Seq<u8>,
)
    requires
        distinct_keys(before),
        0 <= p < after.len(),
        after[p].0 == key,
        before.len() <= after.len() <= before.len() + 1,
        p < before.len() ==> before[p].0 == key && after.len() == before.len(),
        p == before.len() ==> !has_entry(before, key) && after.len() == before.len() + 1,
        forall|i: int| 0 <= i < before.len() && i != p ==> before[i] == after[i],
    ensures
        distinct_keys(after),
        other != key ==> listed(after, other) == listed(before, other),
        listed(after, key) == after[p].1,
{
    assert forall|i: int, j: int|
        0 <= i < after.len() && 0 <= j < after.len() && i != j implies (#[trigger] after[i]).0 != (
    #[trigger] after[j]).0 by {
        if i != p && j != p {
            assert(before[i].0 != before[j].0);
        } else if i == p {
            assert(before[j] == after[j]);
            if p < before.len() {
                assert(before[p].0 != before[j].0);
            }
        } else {
            assert(before[i] == after[i]);
            if p < before.len() {
                assert(before[p].0 != before[i].0);
            }
        }
    }
    lemma_listed_at(after, p);
    if other == key {
    } else if has_entry(before, other) {
        let i = entry_of(before, other);
        assert(after[i] == before[i]);
        lemma_listed_at(after, i);
    } else if has_entry(after, other) {
        let i = entry_of(after, other);
        assert(before[i] == after[i]);
    }
}

/// A copy of a list of identifiers.
pub fn copy_ids(ids: &Vec<CertificateId>) -> (copy: Vec<CertificateId>)
    ensures
        copy@ == ids@,
{
    let mut copy: Vec<CertificateId> = Vec::new();
    let mut i: usize = 0;
    while i < ids.len()
        invariant
            i <= ids.len(),
            copy@ == ids@.subrange(0, i as int),
        decreases ids.len() - i,
    {
        copy.push(ids[i]);
        i += 1;
        assert(copy@ =~= ids@.subrange(0, i as int));
    }
    assert(copy@ =~= ids@);
    copy
}

impl View for CertificateIndex {
    type V = Map<Seq<u8>, Seq<Seq<u8>>>;

    closed spec fn view(&self) -> Map<Seq<u8>, Seq<Seq<u8>>> {
        index_of_entries(entry_views(self.entries@))
    }
}

impl Clone for CertificateIndex {
    fn clone(&self) -> (copy: Self)
        ensures
            copy@ == self@,
            copy.wf() == self.wf(),
    {
        let mut entries: Vec<IndexEntry> = Vec::new();
        let mut i: usize = 0;
        while i < self.entries.len()
            invariant
                i <= self.entries.len(),
                entries@.len() == i,
                forall|j: int| 0 <= j < i ==> (#[trigger] entries@[j])@ == self.entries@[j]@,
            decreases self.entries.len() - i,
        {
            let entry = &self.entries[i];
            entries.push(IndexEntry { key: entry.key.clone(), ids: copy_ids(&entry.ids) });
            i += 1;
        }
        assert(entry_views(entries@) =~= entry_views(self.entries@));
        CertificateIndex { entries }
    }
}

impl CertificateIndex {
    /// What every index upholds: no party has two entries.
    pub closed spec fn wf(&self) -> bool {
        distinct_keys(entry_views(self.entries@))
    }

    /// The view has a list for every party.
    pub proof fn lemma_total(&self)
        ensures
            forall|key: Seq<u8>| self@.dom().contains(key),
    {
    }

    /// The entries of the index, one for each party that has any.
    pub fn entries(&self) -> (entries: Vec<IndexEntry>)
        requires
            self.wf(),
        ensures
            distinct_keys(entry_views(entries@)),
            self@ == index_of_entries(entry_views(entries@)),
    {
        let copy = self.clone();
        copy.entries
    }

    /// The index that `entries` stand for; `None` where a party has two
    /// entries.
    pub fn from_entries(entries: Vec<IndexEntry>) -> (index: Option<CertificateIndex>)
        ensures
            match index {
                Some(index) => distinct_keys(entry_views(entries@)) && index.wf() && index@
                    == index_of_entries(entry_views(entries@)),
                None => !distinct_keys(entry_views(entries@)),
            },
    {
        let ghost views = entry_views(entries@);
        let mut i: usize = 0;
        while i < entries.len()
            invariant
                i <= entries.len(),
                views == entry_views(entries@),
                forall|a: int, b: int|
                    0 <= a < i && 0 <= b < i && a != b ==> (#[trigger] views[a]).0 != (
                    #[trigger] views[b]).0,
            decreases entries.len() - i,
        {
            let mut j: usize = 0;
            while j < i
                invariant
                    j <= i < entries.len(),
                    views == entry_views(entries@),
                    forall|b: int| 0 <= b < j ==> (#[trigger] views[b]).0 != views[i as int].0,
                decreases i - j,
            {
                if entries[j].key.same_as(&entries[i].key) {
                    assert(views[j as int].0 == views[i as int].0);
                    return None;
                }
                j += 1;
            }
            i += 1;
        }
        Some(CertificateIndex { entries })
    }

    /// The empty index.
    pub fn new() -> (index: CertificateIndex)
        ensures
            index.wf(),
            index@ == Map::total(|key: Seq<u8>| Seq::<Seq<u8>>::empty()),
    {
        let index = CertificateIndex { entries: Vec::new() };
        assert(index@ =~= Map::total(|key: Seq<u8>| Seq::<Seq<u8>>::empty()));
        index
    }

    fn find(&self, key: &Identity) -> (slot: Option<usize>)
        requires
            self.wf(),
        ensures
            match slot {
                Some(p) => p < self.entries@.len() && self.entries@[p as int].key@ == key@
                    && self@[key@] == id_views(self.entries@[p as int].ids@),
                None => !has_entry(entry_views(self.entries@), key@) && self@[key@] == Seq::<
                    Seq<u8>,
                >::empty(),
            },
    {
        let mut i: usize = 0;
        while i < self.entries.len()
            invariant
                self.wf(),
                i <= self.entries.len(),
                forall|j: int|
                    0 <= j < i ==> (#[trigger] entry_views(self.entries@)[j]).0 != key@,
            decreases self.entries.len() - i,
        {
            if self.entries[i].key.same_as(key) {
                proof {
                    lemma_listed_at(entry_views(self.entries@), i as int);
                }
                return Some(i);
            }
            i += 1;
        }
        None
    }

    /// The identifiers filed under `key`, oldest first.
    pub fn get(&self, key: &Identity) -> (ids: Vec<CertificateId>)
        requires
            self.wf(),
        ensures
            id_views(ids@) == self@[key@],
    {
        match self.find(key) {
            Some(p) => copy_ids(&self.entries[p].ids),
            None => {
                let ids: Vec<CertificateId> = Vec::new();
                assert(id_views(ids@) =~= Seq::<Seq<u8>>::empty());
                ids
            },
        }
    }

    /// How many identifiers are filed under `key`.
    pub fn count(&self, key: &Identity) -> (n: usize)
        requires
            self.wf(),
        ensures
            n == self@[key@].len(),
    {
        match self.find(key) {
            Some(p) => self.entries[p].ids.len(),
            None => 0,
        }
    }

    /// Whether `id` is filed under `key`.
    pub fn lists(&self, key: &Identity, id: &CertificateId) -> (found: bool)
        requires
            self.wf(),
        ensures
            found == self@[key@].contains(id@),
    {
        match self.find(key) {
            Some(p) => {
                let entry = &self.entries[p];
                let mut i: usize = 0;
                while i < entry.ids.len()
                    invariant
                        i <= entry.ids.len(),
                        self@[key@] == id_views(entry.ids@),
                        forall|j: int| 0 <= j < i ==> entry.ids@[j]@ != id@,
                    decreases entry.ids.len() - i,
                {
                    if entry.ids[i].same_as(id) {
                        assert(id_views(entry.ids@)[i as int] == id@);
                        return true;
                    }
                    i += 1;
                }
                false
            },
            None => false,
        }
    }

    fn replace(&mut self, key: &Identity, ids: Vec<CertificateId>)
        requires
            old(self).wf(),
        ensures
            final(self).wf(),
            final(self)@ == old(self)@.insert(key@, id_views(ids@)),
    {
        let ghost before = entry_views(self.entries@);
        let entry = IndexEntry { key: key.clone(), ids };
        let ghost p: int;
        match self.find(key) {
            Some(slot) => {
                self.entries.set(slot, entry);
                proof {
                    p = slot as int;
                }
            },
            None => {
                self.entries.push(entry);
                proof {
                    p = before.len() as int;
                }
            },
        }
        proof {
            let after = entry_views(self.entries@);
            assert forall|other: Seq<u8>| other != key@ implies listed(after, other) == listed(
                before,
                other,
            ) by {
                lemma_listed_after_change(before, after, key@, p, other);
            }
            lemma_listed_after_change(before, after, key@, p, key@);
            assert(self@ =~= old(self)@.insert(key@, id_views(ids@)));
        }
    }

    /// Files `id` under `key`, after what is filed there already.
    pub fn append(&mut self, key: &Identity, id: CertificateId)
        requires
            old(self).wf(),
        ensures
            final(self).wf(),
            final(self)@ == old(self)@.insert(key@, old(self)@[key@].push(id@)),
    {
        let mut ids = self.get(key);
        ids.push(id);
        assert(id_views(ids@) =~= old(self)@[key@].push(id@));
        self.replace(key, ids);
    }

    /// Rebuilds the list of `key` without `id`.
    pub fn remove(&mut self, key: &Identity, id: &CertificateId)
        requires
            old(self).wf(),
        ensures
            final(self).wf(),
            final(self)@ == old(self)@.insert(key@, without(old(self)@[key@], id@)),
    {
        let listed_ids = self.get(key);
        let mut kept: Vec<CertificateId> = Vec::new();
        let mut i: usize = 0;
        while i < listed_ids.len()
            invariant
                i <= listed_ids.len(),
                id_views(kept@) == without(id_views(listed_ids@).subrange(0, i as int), id@),
            decreases listed_ids.len() - i,
        {
            let ghost prefix = id_views(listed_ids@).subrange(0, i as int);
            let ghost longer = id_views(listed_ids@).subrange(0, i + 1);
            assert(longer.drop_last() =~= prefix);
            assert(longer.last() == listed_ids@[i as int]@);
            if !listed_ids[i].same_as(id) {
                kept.push(listed_ids[i]);
                assert(id_views(kept@) =~= without(prefix, id@).push(listed_ids@[i as int]@));
            }
            i += 1;
        }
        assert(id_views(listed_ids@).subrange(0, listed_ids@.len() as int) =~= id_views(
            listed_ids@,
        ));
        self.replace(key, kept);
    }
}

} // verus!
