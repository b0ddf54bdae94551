//! An in-memory catalog of named search indices.
//!
//! The catalog maps index names to opened index handles, arbitrates
//! concurrent access through a reader/writer lock, and produces
//! point-in-time structural summaries (segment counts, document counts,
//! sizes, generations) of any registered index.

mod catalog;
mod error;
mod handle;
mod handler;
mod segment;
mod summary;

pub use catalog::IndexCatalog;
pub use catalog::lemma_handles_mirror_their_keys;
pub use catalog::lemma_registered_until_removed;
pub use error::Error;
pub use handle::IndexHandle;
pub use handler::SharedCatalog;
pub use handler::SummaryHandler;
pub use handler::WfCatalog;
pub use handler::new_shared_catalog;
pub use handler::register_shared;
pub use handler::remove_shared;
pub use handler::share_catalog;
pub use segment::SegmentMeta;
pub use segment::all_wf;
pub use segment::fits_u64;
pub use segment::total_deleted_of;
pub use segment::total_docs_of;
pub use segment::total_size_of;
pub use summary::IndexSummary;
