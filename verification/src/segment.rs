//! Per-segment structural metadata and the aggregate sums over it.

use vstd::prelude::*;

use crate::error::Error;

verus! {

/// Structural metadata of one physical segment of an index: an immutable
/// chunk of data produced by one write/commit cycle.
#[derive(Clone, Copy, Debug, PartialEq, Eq, Structural)]
pub struct SegmentMeta {
    /// Identifier of the segment within its index.
    pub segment_id: u64,
    /// Number of documents the segment holds, deleted ones included.
    pub num_docs: u64,
    /// Number of those documents that are marked deleted.
    pub num_deleted: u64,
    /// Approximate size of the segment on disk, in bytes.
    pub size_bytes: u64,
    /// Generation (commit version) that produced the segment.
    pub generation: u64,
}

impl SegmentMeta {
    /// A segment description is well formed when it does not claim more
    /// deleted documents than documents.
    pub open spec fn wf(self) -> bool {
        self.num_deleted <= self.num_docs
    }

    /// Validates raw metadata read from an index. Rejects, as corrupt, a
    /// record claiming more deleted documents than documents.
    pub fn new(
        segment_id: u64,
        num_docs: u64,
        num_deleted: u64,
        size_bytes: u64,
        generation: u64,
    ) -> (r: Result<SegmentMeta, Error>)
        ensures
            num_deleted <= num_docs ==> r == Ok::<SegmentMeta, Error>(
                (SegmentMeta { segment_id, num_docs, num_deleted, size_bytes, generation }),
            ),
            num_deleted > num_docs ==> r == Err::<SegmentMeta, Error>(Error::Corrupt),
    {
        if num_deleted > num_docs {
            Err(Error::Corrupt)
        } else {
            Ok(SegmentMeta { segment_id, num_docs, num_deleted, size_bytes, generation })
        }
    }
}

/// All segment records in the sequence are well formed.
pub open spec fn all_wf(s: Seq<SegmentMeta>) -> bool {
    forall|k: int| 0 <= k < s.len() ==> (#[trigger] s[k]).wf()
}

/// Total number of documents over a sequence of segments.
pub open spec fn total_docs_of(s: Seq<SegmentMeta>) -> int
    decreases s.len(),
{
    if s.len() == 0 {
        0
    } else {
        total_docs_of(s.drop_last()) + s.last().num_docs
    }
}

/// Total number of deleted documents over a sequence of segments.
pub open spec fn total_deleted_of(s: Seq<SegmentMeta>) -> int
    decreases s.len(),
{
    if s.len() == 0 {
        0
    } else {
        total_deleted_of(s.drop_last()) + s.last().num_deleted
    }
}

/// Total byte size over a sequence of segments.
pub open spec fn total_size_of(s: Seq<SegmentMeta>) -> int
    decreases s.len(),
{
    if s.len() == 0 {
        0
    } else {
        total_size_of(s.drop_last()) + s.last().size_bytes
    }
}

/// Each aggregate fits into a `u64`, so a summary can carry it.
pub open spec fn fits_u64(s: Seq<SegmentMeta>) -> bool {
    &&& total_docs_of(s) <= u64::MAX
    &&& total_deleted_of(s) <= u64::MAX
    &&& total_size_of(s) <= u64::MAX
}

/// Stepping a prefix sum: the sums over `s.take(j + 1)` extend the sums
/// over `s.take(j)` by the entries of `s[j]`.
pub proof fn lemma_take_step(s: Seq<SegmentMeta>, j: int)
    requires
        0 <= j < s.len(),
    ensures
        total_docs_of(s.take(j + 1)) == total_docs_of(s.take(j)) + s[j].num_docs,
        total_deleted_of(s.take(j + 1)) == total_deleted_of(s.take(j)) + s[j].num_deleted,
        total_size_of(s.take(j + 1)) == total_size_of(s.take(j)) + s[j].size_bytes,
{
    assert(s.take(j + 1).drop_last() =~= s.take(j));
    assert(s.take(j + 1).last() == s[j]);
}

/// The sums over any prefix are bounded by the sums over the whole
/// sequence: every summand is non-negative.
pub proof fn lemma_take_le(s: Seq<SegmentMeta>, j: int)
    requires
        0 <= j <= s.len(),
    ensures
        total_docs_of(s.take(j)) <= total_docs_of(s),
        total_deleted_of(s.take(j)) <= total_deleted_of(s),
        total_size_of(s.take(j)) <= total_size_of(s),
    decreases s.len() - j,
{
    if j == s.len() {
        assert(s.take(j) =~= s);
    } else {
        lemma_take_step(s, j);
        lemma_take_le(s, j + 1);
    }
}

/// Over well-formed segments, the deleted total never exceeds the
/// document total.
pub proof fn lemma_deleted_le_docs(s: Seq<SegmentMeta>)
    requires
        all_wf(s),
    ensures
        total_deleted_of(s) <= total_docs_of(s),
    decreases s.len(),
{
    if s.len() > 0 {
        assert(all_wf(s.drop_last()));
        lemma_deleted_le_docs(s.drop_last());
        assert(s.last() == s[s.len() - 1]);
    }
}

} // verus!
