//! The live, in-process representation of one opened index.

use vstd::prelude::*;

use crate::error::Error;
use crate::segment::SegmentMeta;
use crate::segment::all_wf;
use crate::segment::fits_u64;
use crate::summary::IndexSummary;

verus! {

/// One opened index: its name (mirroring its catalog key), the segment
/// records of its most recently committed generation, and whether its
/// underlying resource is still open.
pub struct IndexHandle {
    /// Name under which the index is registered.
    pub name: String,
    /// Segment records of the most recently committed generation.
    pub segments: Vec<SegmentMeta>,
    /// Whether the underlying resource is still open. Once the handle is
    /// released, metadata can no longer be read through it.
    pub is_open: bool,
}

impl IndexHandle {
    /// Two handles are equivalent when they name the same index, describe
    /// the same segment layout, and agree on openness.
    pub open spec fn equiv(self, other: IndexHandle) -> bool {
        &&& self.name@ == other.name@
        &&& self.segments@ == other.segments@
        &&& self.is_open == other.is_open
    }

    /// Opens a handle on an index with the given name and segment layout.
    pub fn new(name: String, segments: Vec<SegmentMeta>) -> (h: IndexHandle)
        ensures
            h.name@ == name@,
            h.segments@ == segments@,
            h.is_open,
    {
        IndexHandle { name, segments, is_open: true }
    }

    /// Releases the underlying resource. Later metadata reads through
    /// this handle report the index as unavailable.
    pub fn close(&mut self)
        ensures
            final(self).name@ == old(self).name@,
            final(self).segments@ == old(self).segments@,
            !final(self).is_open,
    {
        self.is_open = false;
    }

    /// Records one more committed segment: the layout grows by `meta`,
    /// and nothing else changes.
    pub fn commit(&mut self, meta: SegmentMeta)
        ensures
            final(self).name@ == old(self).name@,
            final(self).segments@ == old(self).segments@.push(meta),
            final(self).is_open == old(self).is_open,
    {
        self.segments.push(meta);
    }

    /// Computes a fresh point-in-time summary of the index's current
    /// segment layout. Fails with `Unavailable` if the handle was closed,
    /// and with `Corrupt` if the layout holds an ill-formed record or an
    /// aggregate too large for a `u64`; otherwise the summary holds
    /// exactly the current records, in order.
    pub fn load_metas(&self) -> (r: Result<IndexSummary, Error>)
        ensures
            !self.is_open ==> r == Err::<IndexSummary, Error>(Error::Unavailable),
            self.is_open && !(all_wf(self.segments@) && fits_u64(self.segments@)) ==> r == Err::<
                IndexSummary,
                Error,
            >(Error::Corrupt),
            self.is_open && all_wf(self.segments@) && fits_u64(self.segments@) ==> (r matches Ok(s)
                && s@ == self.segments@),
    {
        if !self.is_open {
            return Err(Error::Unavailable);
        }
        IndexSummary::new(&self.segments)
    }
}

impl Clone for IndexHandle {
    /// A clone is an equivalent handle: same name, same layout, same
    /// openness.
    fn clone(&self) -> (r: IndexHandle)
        ensures
            r.equiv(*self),
    {
        let mut segments: Vec<SegmentMeta> = Vec::new();
        let mut i: usize = 0;
        while i < self.segments.len()
            invariant
                i <= self.segments.len(),
                segments@ == self.segments@.take(i as int),
            decreases self.segments.len() - i,
        {
            segments.push(self.segments[i]);
            assert(segments@ =~= self.segments@.take(i as int + 1));
            i += 1;
        }
        assert(self.segments@.take(i as int) =~= self.segments@);
        IndexHandle { name: self.name.clone(), segments, is_open: self.is_open }
    }
}

} // verus!
