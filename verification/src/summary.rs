//! Point-in-time structural summaries of an index.

use vstd::prelude::*;

use crate::error::Error;
use crate::segment::SegmentMeta;
use crate::segment::all_wf;
use crate::segment::fits_u64;
use crate::segment::lemma_take_le;
use crate::segment::lemma_take_step;
use crate::segment::total_deleted_of;
use crate::segment::total_docs_of;
use crate::segment::total_size_of;

verus! {

/// A point-in-time snapshot of an index's segment layout, together with
/// aggregates derived from it. A summary never changes after construction,
/// even if the index it describes later commits new segments.
pub struct IndexSummary {
    segments: Vec<SegmentMeta>,
    docs: u64,
    deleted: u64,
    bytes: u64,
}

impl View for IndexSummary {
    type V = Seq<SegmentMeta>;

    /// A summary is modelled by the sequence of segment records it holds.
    closed spec fn view(&self) -> Seq<SegmentMeta> {
        self.segments@
    }
}

impl IndexSummary {
    /// Every summary holds well-formed segment records, and its aggregate
    /// fields equal the sums over those records.
    #[verifier::type_invariant]
    spec fn inv(self) -> bool {
        &&& all_wf(self.segments@)
        &&& self.docs == total_docs_of(self.segments@)
        &&& self.deleted == total_deleted_of(self.segments@)
        &&& self.bytes == total_size_of(self.segments@)
    }

    /// Builds a summary from the segment records of an index. Rejects, as
    /// corrupt, a layout with an ill-formed record or with an aggregate
    /// too large for a `u64`; otherwise the summary holds exactly the
    /// given records, in order.
    pub fn new(segments: &Vec<SegmentMeta>) -> (r: Result<IndexSummary, Error>)
        ensures
            all_wf(segments@) && fits_u64(segments@) ==> (r matches Ok(s) && s@ == segments@),
            !(all_wf(segments@) && fits_u64(segments@)) ==> r == Err::<IndexSummary, Error>(
                Error::Corrupt,
            ),
    {
        let ghost full = segments@;
        let mut snapshot: Vec<SegmentMeta> = Vec::new();
        let mut docs: u64 = 0;
        let mut deleted: u64 = 0;
        let mut bytes: u64 = 0;
        let mut i: usize = 0;
        while i < segments.len()
            invariant
                i <= segments.len(),
                full == segments@,
                snapshot@ == full.take(i as int),
                all_wf(full.take(i as int)),
                docs == total_docs_of(full.take(i as int)),
                deleted == total_deleted_of(full.take(i as int)),
                bytes == total_size_of(full.take(i as int)),
            decreases segments.len() - i,
        {
            let m = segments[i];
            if m.num_deleted > m.num_docs {
                assert(!full[i as int].wf());
                return Err(Error::Corrupt);
            }
            proof {
                lemma_take_step(full, i as int);
                lemma_take_le(full, i as int + 1);
            }
            docs = match docs.checked_add(m.num_docs) {
                Some(v) => v,
                None => {
                    return Err(Error::Corrupt);
                },
            };
            deleted = match deleted.checked_add(m.num_deleted) {
                Some(v) => v,
                None => {
                    return Err(Error::Corrupt);
                },
            };
            bytes = match bytes.checked_add(m.size_bytes) {
                Some(v) => v,
                None => {
                    return Err(Error::Corrupt);
                },
            };
            snapshot.push(m);
            assert(snapshot@ =~= full.take(i as int + 1));
            i += 1;
        }
        assert(full.take(i as int) =~= full);
        Ok(IndexSummary { segments: snapshot, docs, deleted, bytes })
    }

    /// Aggregate document count: the sum of the per-segment document
    /// counts, deleted documents included.
    pub fn total_docs(&self) -> (r: u64)
        ensures
            r == total_docs_of(self@),
    {
        proof {
            use_type_invariant(self);
        }
        self.docs
    }

    /// Aggregate deleted-document count: the sum of the per-segment
    /// deleted counts. Never exceeds the aggregate document count.
    pub fn total_deleted(&self) -> (r: u64)
        ensures
            r == total_deleted_of(self@),
            r <= total_docs_of(self@),
    {
        proof {
            use_type_invariant(self);
            crate::segment::lemma_deleted_le_docs(self.segments@);
        }
        self.deleted
    }

    /// Aggregate byte size: the sum of the per-segment sizes.
    pub fn total_size(&self) -> (r: u64)
        ensures
            r == total_size_of(self@),
    {
        proof {
            use_type_invariant(self);
        }
        self.bytes
    }

    /// Number of segments in the snapshot.
    pub fn segment_count(&self) -> (r: usize)
        ensures
            r == self@.len(),
    {
        self.segments.len()
    }

    /// The segment records of the snapshot, in their on-disk order.
    pub fn segments(&self) -> (r: &Vec<SegmentMeta>)
        ensures
            r@ == self@,
            all_wf(self@),
    {
        proof {
            use_type_invariant(self);
        }
        &self.segments
    }
}

} // verus!
