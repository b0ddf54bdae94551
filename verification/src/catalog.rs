//! The registry mapping index names to opened index handles.

use vstd::prelude::*;

use crate::error::Error;
use crate::handle::IndexHandle;

verus! {

/// The catalog's abstract model: a map from index name to the handle
/// registered under it, built from the entry list back to front.
spec fn entry_map(s: Seq<(String, IndexHandle)>) -> Map<Seq<char>, IndexHandle>
    decreases s.len(),
{
    if s.len() == 0 {
        Map::empty()
    } else {
        entry_map(s.drop_last()).insert(s.last().0@, s.last().1)
    }
}

/// No two entries carry the same name.
spec fn unique_names(s: Seq<(String, IndexHandle)>) -> bool {
    forall|i: int, j: int|
        0 <= i < j < s.len() ==> (#[trigger] s[i]).0@ != (#[trigger] s[j]).0@
}

/// Each stored handle is named after the key it is registered under.
spec fn names_mirror(s: Seq<(String, IndexHandle)>) -> bool {
    forall|i: int| 0 <= i < s.len() ==> (#[trigger] s[i]).1.name@ == s[i].0@
}

/// A name is in the model exactly when some entry carries it.
proof fn lemma_entry_map_contains(s: Seq<(String, IndexHandle)>, n: Seq<char>)
    ensures
        entry_map(s).contains_key(n) <==> (exists|k: int| 0 <= k < s.len() && (#[trigger] s[k]).0@
            == n),
    decreases s.len(),
{
    if s.len() > 0 {
        lemma_entry_map_contains(s.drop_last(), n);
        if s.last().0@ == n {
            assert(s[s.len() - 1].0@ == n);
        } else {
            if exists|k: int| 0 <= k < s.len() && (#[trigger] s[k]).0@ == n {
                let k = choose|k: int| 0 <= k < s.len() && (#[trigger] s[k]).0@ == n;
                assert(s.drop_last()[k] == s[k]);
            }
            if exists|k: int| 0 <= k < s.drop_last().len() && (#[trigger] s.drop_last()[k]).0@
                == n {
                let k = choose|k: int|
                    0 <= k < s.drop_last().len() && (#[trigger] s.drop_last()[k]).0@ == n;
                assert(s.drop_last()[k] == s[k]);
            }
        }
    }
}

/// Uniqueness survives dropping the last entry.
proof fn lemma_unique_drop_last(s: Seq<(String, IndexHandle)>)
    requires
        unique_names(s),
        s.len() > 0,
    ensures
        unique_names(s.drop_last()),
{
    assert forall|i: int, j: int|
        0 <= i < j < s.drop_last().len() implies (#[trigger] s.drop_last()[i]).0@ != (
    #[trigger] s.drop_last()[j]).0@ by {
        assert(s.drop_last()[i] == s[i]);
        assert(s.drop_last()[j] == s[j]);
    }
}

/// With unique names, the model maps the name of entry `k` to exactly
/// that entry's handle.
proof fn lemma_entry_map_value(s: Seq<(String, IndexHandle)>, n: Seq<char>, k: int)
    requires
        unique_names(s),
        0 <= k < s.len(),
        s[k].0@ == n,
    ensures
        entry_map(s).contains_key(n),
        entry_map(s)[n] == s[k].1,
    decreases s.len(),
{
    if k == s.len() - 1 {
        assert(s.last() == s[k]);
    } else {
        assert(s[s.len() - 1].0@ != n);
        lemma_unique_drop_last(s);
        assert(s.drop_last()[k] == s[k]);
        lemma_entry_map_value(s.drop_last(), n, k);
    }
}

/// Appending an entry inserts its name into the model.
proof fn lemma_entry_map_push(s: Seq<(String, IndexHandle)>, e: (String, IndexHandle))
    ensures
        entry_map(s.push(e)) == entry_map(s).insert(e.0@, e.1),
{
    assert(s.push(e).drop_last() =~= s);
    assert(s.push(e).last() == e);
}

/// Removing the entry that carries `n` removes `n` from the model and
/// keeps the remaining entries well formed.
proof fn lemma_entry_map_remove(s: Seq<(String, IndexHandle)>, n: Seq<char>, k: int)
    requires
        unique_names(s),
        names_mirror(s),
        0 <= k < s.len(),
        s[k].0@ == n,
    ensures
        unique_names(s.remove(k)),
        names_mirror(s.remove(k)),
        entry_map(s.remove(k)) == entry_map(s).remove(n),
{
    let t = s.remove(k);
    s.remove_ensures(k);
    assert forall|i: int| 0 <= i < t.len() implies (#[trigger] t[i]).1.name@ == t[i].0@ by {
        if i < k {
            assert(t[i] == s[i]);
        } else {
            assert(t[i] == s[i + 1]);
        }
    }
    assert forall|i: int, j: int|
        0 <= i < j < t.len() implies (#[trigger] t[i]).0@ != (#[trigger] t[j]).0@ by {
        if i < k {
            assert(t[i] == s[i]);
        } else {
            assert(t[i] == s[i + 1]);
        }
        if j < k {
            assert(t[j] == s[j]);
        } else {
            assert(t[j] == s[j + 1]);
        }
    }
    assert forall|m: Seq<char>| #![trigger entry_map(t).contains_key(m)]
        entry_map(t).contains_key(m) == (entry_map(s).contains_key(m) && m != n) by {
        lemma_entry_map_contains(t, m);
        lemma_entry_map_contains(s, m);
        if entry_map(t).contains_key(m) {
            let i = choose|i: int| 0 <= i < t.len() && (#[trigger] t[i]).0@ == m;
            if i < k {
                assert(t[i] == s[i]);
                assert(s[i].0@ != s[k].0@);
            } else {
                assert(t[i] == s[i + 1]);
                assert(s[k].0@ != s[i + 1].0@);
            }
        }
        if entry_map(s).contains_key(m) && m != n {
            let i = choose|i: int| 0 <= i < s.len() && (#[trigger] s[i]).0@ == m;
            if i < k {
                assert(t[i] == s[i]);
            } else {
                assert(i != k);
                assert(t[i - 1] == s[i]);
            }
        }
    }
    assert forall|m: Seq<char>| #![trigger entry_map(t)[m]]
        entry_map(t).contains_key(m) implies entry_map(t)[m] == entry_map(s)[m] by {
        lemma_entry_map_contains(t, m);
        let i = choose|i: int| 0 <= i < t.len() && (#[trigger] t[i]).0@ == m;
        lemma_entry_map_value(t, m, i);
        if i < k {
            assert(t[i] == s[i]);
            lemma_entry_map_value(s, m, i);
        } else {
            assert(t[i] == s[i + 1]);
            lemma_entry_map_value(s, m, i + 1);
        }
    }
    assert(entry_map(t) =~= entry_map(s).remove(n));
}

/// A successful registration stays visible until the name is removed.
///
/// `register(name, handle)` leaves the model at `m.insert(name, handle)`;
/// in it, `contains(name)` answers true and `get(name)` yields the
/// registered handle. Registering or removing any *other* name preserves
/// both; only `remove(name)` itself takes the entry out.
pub proof fn lemma_registered_until_removed(
    m: Map<Seq<char>, IndexHandle>,
    name: Seq<char>,
    handle: IndexHandle,
    other: Seq<char>,
    other_handle: IndexHandle,
)
    requires
        other != name,
    ensures
        m.insert(name, handle).contains_key(name),
        m.insert(name, handle)[name] == handle,
        m.insert(name, handle).insert(other, other_handle).contains_key(name),
        m.insert(name, handle).insert(other, other_handle)[name] == handle,
        m.insert(name, handle).remove(other).contains_key(name),
        m.insert(name, handle).remove(other)[name] == handle,
        !m.insert(name, handle).remove(name).contains_key(name),
{
}

/// In a well-formed catalog, every registered handle is named after the
/// key it is registered under: a lookup can never yield a handle onto
/// some other index.
pub proof fn lemma_handles_mirror_their_keys(c: &IndexCatalog, n: Seq<char>)
    requires
        c.wf(),
        c@.contains_key(n),
    ensures
        c@[n].name@ == n,
{
    lemma_entry_map_contains(c.entries@, n);
    let k = choose|k: int| 0 <= k < c.entries@.len() && (#[trigger] c.entries@[k]).0@ == n;
    lemma_entry_map_value(c.entries@, n, k);
}

/// The registry of opened indices: at most one handle per name, names
/// case-sensitive. The catalog owns its handles; lookups hand out
/// equivalent copies, never the stored entry itself.
pub struct IndexCatalog {
    entries: Vec<(String, IndexHandle)>,
}

impl View for IndexCatalog {
    type V = Map<Seq<char>, IndexHandle>;

    /// A catalog is modelled by the map from registered name to handle.
    closed spec fn view(&self) -> Map<Seq<char>, IndexHandle> {
        entry_map(self.entries@)
    }
}

impl IndexCatalog {
    /// Each name is registered at most once, and each stored handle is
    /// named after its key.
    pub closed spec fn wf(&self) -> bool {
        &&& unique_names(self.entries@)
        &&& names_mirror(self.entries@)
    }

    /// Creates an empty catalog.
    pub fn new() -> (c: IndexCatalog)
        ensures
            c.wf(),
            c@ == Map::<Seq<char>, IndexHandle>::empty(),
    {
        IndexCatalog { entries: Vec::new() }
    }

    /// Reports whether an entry for `name` currently exists. Never fails.
    pub fn contains(&self, name: &String) -> (r: bool)
        ensures
            r == self@.contains_key(name@),
    {
        let mut i: usize = 0;
        while i < self.entries.len()
            invariant
                i <= self.entries.len(),
                forall|k: int| 0 <= k < i ==> (#[trigger] self.entries@[k]).0@ != name@,
            decreases self.entries.len() - i,
        {
            if self.entries[i].0 == *name {
                proof {
                    lemma_entry_map_contains(self.entries@, name@);
                }
                return true;
            }
            i += 1;
        }
        proof {
            lemma_entry_map_contains(self.entries@, name@);
        }
        false
    }

    /// Looks `name` up and returns a handle equivalent to the registered
    /// one, or `NotFound` if the name is absent. The catalog is not
    /// consulted again once the copy is handed out: metadata loads on the
    /// result do not hold the catalog up.
    pub fn get(&self, name: &String) -> (r: Result<IndexHandle, Error>)
        requires
            self.wf(),
        ensures
            self@.contains_key(name@) ==> (r matches Ok(h) && h.equiv(self@[name@]) && h.name@
                == name@),
            !self@.contains_key(name@) ==> r == Err::<IndexHandle, Error>(Error::NotFound),
    {
        let mut i: usize = 0;
        while i < self.entries.len()
            invariant
                self.wf(),
                i <= self.entries.len(),
                forall|k: int| 0 <= k < i ==> (#[trigger] self.entries@[k]).0@ != name@,
            decreases self.entries.len() - i,
        {
            if self.entries[i].0 == *name {
                proof {
                    lemma_entry_map_value(self.entries@, name@, i as int);
                }
                return Ok(self.entries[i].1.clone());
            }
            i += 1;
        }
        proof {
            lemma_entry_map_contains(self.entries@, name@);
        }
        Err(Error::NotFound)
    }

    /// Inserts a new entry for `name`. Fails with `AlreadyExists`, and
    /// changes nothing, if `name` is already registered; no entry under
    /// another name is affected either way.
    pub fn register(&mut self, name: String, handle: IndexHandle) -> (r: Result<(), Error>)
        requires
            old(self).wf(),
            handle.name@ == name@,
        ensures
            final(self).wf(),
            old(self)@.contains_key(name@) ==> r == Err::<(), Error>(Error::AlreadyExists)
                && final(self)@ == old(self)@,
            !old(self)@.contains_key(name@) ==> r == Ok::<(), Error>(())
                && final(self)@ == old(self)@.insert(name@, handle),
    {
        let ghost n = name@;
        let ghost s0 = self.entries@;
        if self.contains(&name) {
            return Err(Error::AlreadyExists);
        }
        proof {
            lemma_entry_map_contains(s0, n);
        }
        self.entries.push((name, handle));
        proof {
            assert(self.entries@.last().0@ == n);
            assert(self.entries@ =~= s0.push(self.entries@.last()));
            lemma_entry_map_push(s0, self.entries@.last());
            assert forall|i: int, j: int|
                0 <= i < j < self.entries@.len() implies (#[trigger] self.entries@[i]).0@ != (
            #[trigger] self.entries@[j]).0@ by {
                if j < s0.len() {
                    assert(self.entries@[i] == s0[i]);
                    assert(self.entries@[j] == s0[j]);
                } else {
                    assert(self.entries@[i] == s0[i]);
                    assert(self.entries@[j].0@ == n);
                }
            }
            assert forall|i: int|
                0 <= i < self.entries@.len() implies (#[trigger] self.entries@[i]).1.name@
                == self.entries@[i].0@ by {
                if i < s0.len() {
                    assert(self.entries@[i] == s0[i]);
                }
            }
        }
        Ok(())
    }

    /// Removes the entry for `name` and returns its handle, so the caller
    /// can release the underlying resource. Fails with `NotFound`, and
    /// changes nothing, if `name` is absent; no entry under another name
    /// is affected either way.
    pub fn remove(&mut self, name: &String) -> (r: Result<IndexHandle, Error>)
        requires
            old(self).wf(),
        ensures
            final(self).wf(),
            !old(self)@.contains_key(name@) ==> r == Err::<IndexHandle, Error>(Error::NotFound)
                && final(self)@ == old(self)@,
            old(self)@.contains_key(name@) ==> (r matches Ok(h) && h == old(self)@[name@]
                && final(self)@ == old(self)@.remove(name@)),
    {
        let mut i: usize = 0;
        while i < self.entries.len()
            invariant
                *self == *old(self),
                self.wf(),
                i <= self.entries.len(),
                forall|k: int| 0 <= k < i ==> (#[trigger] self.entries@[k]).0@ != name@,
            decreases self.entries.len() - i,
        {
            if self.entries[i].0 == *name {
                proof {
                    lemma_entry_map_value(self.entries@, name@, i as int);
                    lemma_entry_map_remove(self.entries@, name@, i as int);
                }
                let entry = self.entries.remove(i);
                return Ok(entry.1);
            }
            i += 1;
        }
        proof {
            lemma_entry_map_contains(self.entries@, name@);
        }
        Err(Error::NotFound)
    }
}

} // verus!
