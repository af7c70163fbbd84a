//! The store that a contract's state is kept in.

use vstd::prelude::*;
use crate::pointer::{copy_bytes, same_bytes, StoragePointer};

verus! {

/// What a store holds as a mathematical map from paths to values.
pub type StorageMap = Map<Seq<u8>, Seq<u8>>;

/// The value read at `path`: what was last written there, or the empty byte
/// string where nothing was written.
pub open spec fn read(m: StorageMap, path: Seq<u8>) -> Seq<u8> {
    if m.contains_key(path) {
        m[path]
    } else {
        Seq::empty()
    }
}

/// A byte-addressable key-value store: the durable state of one contract,
/// held in memory for the duration of a call.
#[derive(Debug)]
pub struct Storage {
    entries: Vec<Entry>,
}

#[derive(Debug)]
struct Entry {
    path: Vec<u8>,
    value: Vec<u8>,
}

spec fn at(entries: Seq<Entry>, i: int, path: Seq<u8>) -> bool {
    0 <= i < entries.len() && entries[i].path@ == path
}

spec fn distinct(entries: Seq<Entry>) -> bool {
    forall|i: int, j: int| 0 <= i < j < entries.len() ==> entries[i].path@ != entries[j].path@
}

spec fn contents(entries: Seq<Entry>) -> StorageMap {
    Map::new(
        |path: Seq<u8>| exists|i: int| at(entries, i, path),
        |path: Seq<u8>| entries[choose|i: int| at(entries, i, path)].value@,
    )
}

/// The position of `path` among the entries, if it has one.
fn position(entries: &Vec<Entry>, path: &[u8]) -> (found: Option<usize>)
    ensures
        match found {
            Some(i) => at(entries@, i as int, path@),
            None => forall|i: int| !at(entries@, i, path@),
        },
{
    let mut i: usize = 0;
    while i < entries.len()
        invariant
            i <= entries.len(),
            forall|j: int| 0 <= j < i ==> !at(entries@, j, path@),
        decreases entries.len() - i,
    {
        if same_bytes(entries[i].path.as_slice(), path) {
            return Some(i);
        }
        i += 1;
    }
    None
}

/// Writing at a path that has an entry replaces that entry's value.
proof fn lemma_replace(before: Seq<Entry>, after: Seq<Entry>, i: int, path: Seq<u8>, value: Seq<u8>)
    requires
        distinct(before),
        at(before, i, path),
        after.len() == before.len(),
        after[i].path@ == path,
        after[i].value@ == value,
        forall|j: int| 0 <= j < before.len() && j != i ==> after[j] == before[j],
    ensures
        distinct(after),
        contents(after) == contents(before).insert(path, value),
{
    assert forall|p: Seq<u8>| #[trigger]
        contents(after).contains_key(p) <==> contents(before).insert(path, value).contains_key(
            p,
        ) by {
        if contents(before).contains_key(p) {
            let j = choose|j: int| at(before, j, p);
            assert(at(after, j, p));
        }
        if contents(after).contains_key(p) {
            let j = choose|j: int| at(after, j, p);
            assert(at(before, j, p));
        }
    }
    assert forall|p: Seq<u8>| #[trigger] contents(after).contains_key(p) implies contents(after)[p]
        == contents(before).insert(path, value)[p] by {
        let j = choose|j: int| at(after, j, p);
        if p != path {
            assert(at(before, j, p));
            let k = choose|k: int| at(before, k, p);
            assert(k == j);
        } else {
            assert(j == i);
        }
    }
    assert(contents(after) =~= contents(before).insert(path, value));
}

/// Writing at a path that has no entry adds one.
proof fn lemma_extend(before: Seq<Entry>, entry: Entry)
    requires
        distinct(before),
        forall|i: int| !at(before, i, entry.path@),
    ensures
        distinct(before.push(entry)),
        contents(before.push(entry)) == contents(before).insert(entry.path@, entry.value@),
{
    let after = before.push(entry);
    let n = before.len() as int;
    assert(at(after, n, entry.path@));
    assert forall|i: int, j: int| 0 <= i < j < after.len() implies after[i].path@
        != after[j].path@ by {
        if j == n {
            assert(!at(before, i, entry.path@));
        }
    }
    assert forall|p: Seq<u8>| #[trigger]
        contents(after).contains_key(p) <==> contents(before).insert(
            entry.path@,
            entry.value@,
        ).contains_key(p) by {
        if contents(before).contains_key(p) {
            let j = choose|j: int| at(before, j, p);
            assert(at(after, j, p));
        }
        if contents(after).contains_key(p) && p != entry.path@ {
            let j = choose|j: int| at(after, j, p);
            assert(at(before, j, p));
        }
    }
    assert forall|p: Seq<u8>| #[trigger] contents(after).contains_key(p) implies contents(after)[p]
        == contents(before).insert(entry.path@, entry.value@)[p] by {
        let j = choose|j: int| at(after, j, p);
        if p != entry.path@ {
            assert(at(before, j, p));
            let k = choose|k: int| at(before, k, p);
            assert(k == j);
        } else {
            assert(!at(before, j, p));
            assert(j == n);
        }
    }
    assert(contents(after) =~= contents(before).insert(entry.path@, entry.value@));
}

/// Whether entry `j` holds another value than `earlier` reads at its path.
spec fn changed(entries: Seq<Entry>, earlier: StorageMap, j: int) -> bool {
    entries[j].value@ != read(earlier, entries[j].path@)
}

/// What is read at the path of an entry is that entry's value.
proof fn lemma_entry_is_read(entries: Seq<Entry>, j: int)
    requires
        distinct(entries),
        0 <= j < entries.len(),
    ensures
        contents(entries).contains_key(entries[j].path@),
        read(contents(entries), entries[j].path@) == entries[j].value@,
{
    let path = entries[j].path@;
    assert(at(entries, j, path));
    let k = choose|k: int| at(entries, k, path);
    assert(k == j);
}

impl View for Storage {
    type V = StorageMap;

    closed spec fn view(&self) -> StorageMap {
        contents(self.entries@)
    }
}

impl Default for Storage {
    fn default() -> (store: Storage)
        ensures
            store@ == StorageMap::empty(),
    {
        Storage::new()
    }
}

impl Storage {
    #[verifier::type_invariant]
    spec fn well_formed(&self) -> bool {
        distinct(self.entries@)
    }

    /// A store that holds nothing.
    pub fn new() -> (store: Storage)
        ensures
            store@ == StorageMap::empty(),
    {
        let store = Storage { entries: Vec::new() };
        assert(store@ =~= StorageMap::empty());
        store
    }

    /// The paths that hold a value, each once.
    pub fn pointers(&self) -> (ptrs: Vec<StoragePointer>)
        ensures
            forall|path: Seq<u8>|
                self@.contains_key(path) <==> exists|i: int|
                    0 <= i < ptrs.len() && #[trigger] ptrs[i]@ == path,
            forall|i: int, j: int| 0 <= i < j < ptrs.len() ==> ptrs[i]@ != ptrs[j]@,
    {
        proof {
            use_type_invariant(self);
        }
        let mut ptrs: Vec<StoragePointer> = Vec::new();
        let mut i: usize = 0;
        while i < self.entries.len()
            invariant
                i <= self.entries.len(),
                ptrs.len() == i,
                forall|j: int| 0 <= j < i ==> #[trigger] ptrs[j]@ == self.entries[j].path@,
            decreases self.entries.len() - i,
        {
            ptrs.push(StoragePointer::wrap(&self.entries[i].path));
            i += 1;
        }
        assert forall|path: Seq<u8>| self@.contains_key(path) implies exists|i: int|
            0 <= i < ptrs.len() && #[trigger] ptrs[i]@ == path by {
            let j = choose|j: int| at(self.entries@, j, path);
            assert(ptrs[j]@ == path);
        }
        assert forall|path: Seq<u8>|
            (exists|i: int| 0 <= i < ptrs.len() && #[trigger] ptrs[i]@ == path)
                implies self@.contains_key(path) by {
            let j = choose|j: int| 0 <= j < ptrs.len() && #[trigger] ptrs[j]@ == path;
            assert(at(self.entries@, j, path));
        }
        ptrs
    }

    /// The paths that this store holds and at which it reads otherwise than
    /// `earlier` does, each once.
    pub fn changes_since(&self, earlier: &Storage) -> (ptrs: Vec<StoragePointer>)
        ensures
            forall|i: int|
                0 <= i < ptrs.len() ==> self@.contains_key(#[trigger] ptrs[i]@) && read(
                    self@,
                    ptrs[i]@,
                ) != read(earlier@, ptrs[i]@),
            forall|path: Seq<u8>|
                #[trigger] self@.contains_key(path) && read(self@, path) != read(earlier@, path)
                    ==> exists|i: int| 0 <= i < ptrs.len() && #[trigger] ptrs[i]@ == path,
            forall|i: int, j: int| 0 <= i < j < ptrs.len() ==> ptrs[i]@ != ptrs[j]@,
    {
        proof {
            use_type_invariant(self);
        }
        let mut ptrs: Vec<StoragePointer> = Vec::new();
        let ghost mut from: Seq<int> = Seq::empty();
        let mut i: usize = 0;
        while i < self.entries.len()
            invariant
                i <= self.entries.len(),
                distinct(self.entries@),
                from.len() == ptrs.len(),
                forall|k: int|
                    0 <= k < ptrs.len() ==> 0 <= #[trigger] from[k] < i && ptrs[k]@
                        == self.entries[from[k]].path@ && changed(
                        self.entries@,
                        earlier@,
                        from[k],
                    ),
                forall|k: int, l: int| 0 <= k < l < ptrs.len() ==> from[k] < from[l],
                forall|j: int|
                    0 <= j < i && changed(self.entries@, earlier@, j) ==> exists|k: int|
                        0 <= k < ptrs.len() && #[trigger] from[k] == j,
            decreases self.entries.len() - i,
        {
            let ptr = StoragePointer::wrap(&self.entries[i].path);
            let before = earlier.get(&ptr);
            if !same_bytes(self.entries[i].value.as_slice(), before.as_slice()) {
                ptrs.push(ptr);
                proof {
                    let ghost grown = from.push(i as int);
                    assert forall|j: int|
                        0 <= j < i + 1 && changed(self.entries@, earlier@, j) implies exists|
                        k: int,
                    | 0 <= k < ptrs.len() && #[trigger] grown[k] == j by {
                        if j < i {
                            let k = choose|k: int| 0 <= k < from.len() && #[trigger] from[k] == j;
                            assert(grown[k] == j);
                        } else {
                            assert(grown[from.len() as int] == j);
                        }
                    }
                    from = grown;
                }
            }
            i += 1;
        }
        proof {
            assert forall|k: int| 0 <= k < ptrs.len() implies self@.contains_key(
                #[trigger] ptrs[k]@,
            ) && read(self@, ptrs[k]@) != read(earlier@, ptrs[k]@) by {
                lemma_entry_is_read(self.entries@, from[k]);
            }
            assert forall|path: Seq<u8>|
                #[trigger] self@.contains_key(path) && read(self@, path) != read(
                    earlier@,
                    path,
                ) implies exists|k: int| 0 <= k < ptrs.len() && #[trigger] ptrs[k]@ == path by {
                let j = choose|j: int| at(self.entries@, j, path);
                lemma_entry_is_read(self.entries@, j);
                assert(changed(self.entries@, earlier@, j));
                let k = choose|k: int| 0 <= k < ptrs.len() && #[trigger] from[k] == j;
                assert(ptrs[k]@ == path);
            }
            assert forall|k: int, l: int| 0 <= k < l < ptrs.len() implies ptrs[k]@ != ptrs[l]@ by {
                assert(from[k] < from[l]);
            }
        }
        ptrs
    }

    /// The value at `ptr`, empty if none was written.
    pub fn get(&self, ptr: &StoragePointer) -> (value: Vec<u8>)
        ensures
            value@ == read(self@, ptr@),
    {
        proof {
            use_type_invariant(self);
        }
        let path = ptr.unwrap();
        match position(&self.entries, path.as_slice()) {
            Some(i) => {
                assert(at(self.entries@, i as int, ptr@));
                copy_bytes(self.entries[i].value.as_slice())
            },
            None => Vec::new(),
        }
    }

    /// Writes `value` at `ptr`, replacing what was there.
    pub fn set(&mut self, ptr: &StoragePointer, value: Vec<u8>)
        ensures
            final(self)@ == old(self)@.insert(ptr@, value@),
    {
        proof {
            use_type_invariant(&*self);
        }
        let mut entries: Vec<Entry> = Vec::new();
        core::mem::swap(&mut self.entries, &mut entries);
        let entry = Entry { path: ptr.unwrap(), value };
        match position(&entries, entry.path.as_slice()) {
            Some(i) => {
                proof {
                    lemma_replace(entries@, entries@.update(i as int, entry), i as int, ptr@, value@);
                }
                entries.set(i, entry);
            },
            None => {
                proof {
                    lemma_extend(entries@, entry);
                }
                entries.push(entry);
            },
        }
        core::mem::swap(&mut self.entries, &mut entries);
    }
}

} // verus!
