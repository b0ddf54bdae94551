//! The shared, lock-guarded catalog and the summary retrieval protocol.
//!
//! Many request workers serve reads (`contains`, `get`, `summary`) against
//! one catalog instance at the same time; registration and removal take
//! the lock exclusively. The lock is scoped to the map operation alone and
//! is released before any metadata load, so one slow index read never
//! serializes catalog traffic behind it.
//!
//! The lock is vstd's verified reader/writer lock: a reader is handed one
//! complete catalog value satisfying the lock invariant, never a torn or
//! half-updated map, and the lock cannot be poisoned by a panic — the
//! `Internal` error kind is left to boundary layers.

use vstd::prelude::*;
use vstd::rwlock::RwLock;
use vstd::rwlock::RwLockPredicate;

use std::sync::Arc;

use crate::catalog::IndexCatalog;
use crate::error::Error;
use crate::handle::IndexHandle;
use crate::segment::all_wf;
use crate::segment::fits_u64;
use crate::summary::IndexSummary;

verus! {

/// The lock invariant of the shared catalog: every value stored in the
/// lock is a well-formed catalog, so every reader observes one.
pub struct WfCatalog;

impl RwLockPredicate<IndexCatalog> for WfCatalog {
    open spec fn inv(self, c: IndexCatalog) -> bool {
        c.wf()
    }
}

/// One catalog instance behind a reader/writer lock, shared by reference
/// counting across request workers.
pub type SharedCatalog = Arc<RwLock<IndexCatalog, WfCatalog>>;

/// Puts a catalog the service built at start — empty or pre-populated
/// from persisted state — behind the shared lock.
pub fn share_catalog(catalog: IndexCatalog) -> SharedCatalog
    requires
        catalog.wf(),
{
    Arc::new(RwLock::new(catalog, Ghost(WfCatalog)))
}

/// Creates an empty shared catalog.
pub fn new_shared_catalog() -> SharedCatalog {
    share_catalog(IndexCatalog::new())
}

/// Registers `handle` under `name` in the shared catalog, taking the lock
/// exclusively for the insertion alone. The call either succeeds or
/// reports a collision; the catalog stays well formed either way.
pub fn register_shared(catalog: &SharedCatalog, name: String, handle: IndexHandle) -> (r: Result<
    (),
    Error,
>)
    requires
        handle.name@ == name@,
    ensures
        r == Ok::<(), Error>(()) || r == Err::<(), Error>(Error::AlreadyExists),
{
    let (mut cat, write_handle) = catalog.acquire_write();
    let r = cat.register(name, handle);
    write_handle.release_write(cat);
    r
}

/// Removes the entry for `name` from the shared catalog and returns its
/// handle, taking the lock exclusively for the removal alone. The call
/// either yields the removed handle or reports the name absent; the
/// catalog stays well formed either way.
pub fn remove_shared(catalog: &SharedCatalog, name: &String) -> (r: Result<IndexHandle, Error>)
    ensures
        r matches Ok(h) ==> h.name@ == name@,
        r matches Err(e) ==> e == Error::NotFound,
{
    let (mut cat, write_handle) = catalog.acquire_write();
    let ghost cat0 = cat;
    let r = cat.remove(name);
    proof {
        if cat0@.contains_key(name@) {
            crate::catalog::lemma_handles_mirror_their_keys(&cat0, name@);
        }
    }
    write_handle.release_write(cat);
    r
}

/// The read path onto the shared catalog: existence checks, lookups, and
/// point-in-time summaries of a named index's segment layout.
#[derive(Clone)]
pub struct SummaryHandler {
    catalog: SharedCatalog,
}

impl SummaryHandler {
    /// The shared catalog this handler reads.
    pub closed spec fn catalog_spec(&self) -> SharedCatalog {
        self.catalog
    }

    /// Wraps the given shared catalog — that one, not a copy of its
    /// contents — so registrations and removals through the shared
    /// catalog are visible to the handler's later calls. Handlers are
    /// cheap to clone; all clones read the same catalog.
    pub fn new(catalog: SharedCatalog) -> (h: SummaryHandler)
        ensures
            h.catalog_spec() == catalog,
    {
        SummaryHandler { catalog }
    }

    /// Reports whether `name` was registered at the moment the shared
    /// lock granted the read. A later (or concurrent) registration or
    /// removal may change the answer for the next call.
    pub fn contains(&self, name: &String) -> bool {
        let read_handle = self.catalog.acquire_read();
        let found = read_handle.borrow().contains(name);
        read_handle.release_read();
        found
    }

    /// Looks `name` up under a shared read lock and returns a handle
    /// equivalent to the one registered at that moment, or `NotFound` if
    /// the name was absent. The lock is released before the handle is
    /// returned, so later index operations on it do not hold the catalog.
    pub fn get(&self, name: &String) -> (r: Result<IndexHandle, Error>)
        ensures
            r matches Ok(h) ==> h.name@ == name@,
            r matches Err(e) ==> e == Error::NotFound,
    {
        let read_handle = self.catalog.acquire_read();
        let r = read_handle.borrow().get(name);
        read_handle.release_read();
        r
    }

    /// Answers "give me the current structural summary of index `name`":
    /// checks existence, looks the handle up, releases the catalog lock,
    /// and only then loads the metadata. A summary that comes back
    /// describes a complete, well-formed segment layout — never a partial
    /// one. `NotFound` reports a name that was absent at lookup time
    /// (including one removed concurrently just before it);
    /// `Unavailable` and `Corrupt` come from the metadata load itself.
    pub fn summary(&self, name: &String) -> (r: Result<IndexSummary, Error>)
        ensures
            r matches Ok(s) ==> all_wf(s@) && fits_u64(s@),
            r matches Err(e) ==> (e == Error::NotFound || e == Error::Unavailable || e
                == Error::Corrupt),
    {
        let read_handle = self.catalog.acquire_read();
        let cat = read_handle.borrow();
        let looked_up: Result<IndexHandle, Error> = if cat.contains(name) {
            cat.get(name)
        } else {
            Err(Error::NotFound)
        };
        read_handle.release_read();
        match looked_up {
            Ok(handle) => handle.load_metas(),
            Err(e) => Err(e),
        }
    }
}

} // verus!
