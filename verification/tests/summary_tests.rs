use std::sync::Arc;

use index_catalog::Error;
use index_catalog::IndexHandle;
use index_catalog::IndexSummary;
use index_catalog::SegmentMeta;
use index_catalog::SharedCatalog;
use index_catalog::SummaryHandler;
use index_catalog::new_shared_catalog;
use index_catalog::register_shared;
use index_catalog::remove_shared;

fn seg(segment_id: u64, num_docs: u64, num_deleted: u64, size_bytes: u64, generation: u64) -> SegmentMeta {
    SegmentMeta::new(segment_id, num_docs, num_deleted, size_bytes, generation).unwrap()
}

fn create_test_catalog(name: &str) -> SharedCatalog {
    let catalog = new_shared_catalog();
    let handle = IndexHandle::new(
        String::from(name),
        vec![seg(1, 10, 0, 1024, 1), seg(2, 5, 2, 512, 2)],
    );
    register_shared(&catalog, String::from(name), handle).unwrap();
    catalog
}

#[test]
fn get_summary_data() {
    let cat = create_test_catalog("test_index");
    let handler = SummaryHandler::new(Arc::clone(&cat));

    let resp = handler.summary(&String::from("test_index"));
    assert_eq!(resp.is_ok(), true)
}

#[test]
fn empty_catalog_reports_not_found() {
    let catalog = new_shared_catalog();
    let handler = SummaryHandler::new(catalog);

    assert!(!handler.contains(&String::from("docs")));
    assert!(matches!(handler.summary(&String::from("docs")), Err(Error::NotFound)));
}

#[test]
fn summary_aggregates_two_segments() {
    let catalog = create_test_catalog("docs");
    let handler = SummaryHandler::new(catalog);

    let summary = handler.summary(&String::from("docs")).unwrap();
    assert_eq!(summary.segment_count(), 2);
    assert_eq!(summary.total_docs(), 15);
    assert_eq!(summary.total_deleted(), 2);
    assert_eq!(summary.total_size(), 1536);
    assert_eq!(summary.segments()[0], seg(1, 10, 0, 1024, 1));
    assert_eq!(summary.segments()[1], seg(2, 5, 2, 512, 2));
}

#[test]
fn in_flight_read_survives_removal() {
    let catalog = create_test_catalog("docs");
    let handler = SummaryHandler::new(Arc::clone(&catalog));

    let in_flight = handler.get(&String::from("docs")).unwrap();
    let mut removed = remove_shared(&catalog, &String::from("docs")).unwrap();

    // The in-flight call completes with the pre-removal snapshot.
    let summary = in_flight.load_metas().unwrap();
    assert_eq!(summary.total_docs(), 15);
    assert_eq!(summary.total_deleted(), 2);

    // A fresh request finds nothing.
    assert!(matches!(handler.summary(&String::from("docs")), Err(Error::NotFound)));

    // Once the remover releases the resource, reads through it fail.
    removed.close();
    assert!(matches!(removed.load_metas(), Err(Error::Unavailable)));
}

#[test]
fn summary_is_a_point_in_time_snapshot() {
    let mut handle = IndexHandle::new(
        String::from("docs"),
        vec![seg(1, 10, 0, 1024, 1), seg(2, 5, 2, 512, 2)],
    );

    let before = handle.load_metas().unwrap();
    handle.commit(seg(3, 4, 1, 256, 3));

    // The earlier summary is unchanged; a fresh one sees the commit.
    assert_eq!(before.segment_count(), 2);
    assert_eq!(before.total_docs(), 15);
    let after = handle.load_metas().unwrap();
    assert_eq!(after.segment_count(), 3);
    assert_eq!(after.total_docs(), 19);
    assert_eq!(after.total_deleted(), 3);
}

#[test]
fn segment_meta_validates_deleted_count() {
    let ok = SegmentMeta::new(7, 5, 5, 64, 1).unwrap();
    assert_eq!(ok.segment_id, 7);
    assert_eq!(ok.num_docs, 5);
    assert_eq!(ok.num_deleted, 5);
    assert_eq!(ok.size_bytes, 64);
    assert_eq!(ok.generation, 1);

    assert!(matches!(SegmentMeta::new(7, 5, 6, 64, 1), Err(Error::Corrupt)));
}

#[test]
fn corrupt_segment_fails_the_load() {
    let bad = SegmentMeta { segment_id: 1, num_docs: 1, num_deleted: 2, size_bytes: 8, generation: 1 };
    let handle = IndexHandle::new(String::from("docs"), vec![bad]);
    assert!(matches!(handle.load_metas(), Err(Error::Corrupt)));
    assert!(matches!(IndexSummary::new(&vec![bad]), Err(Error::Corrupt)));
}

#[test]
fn oversized_aggregate_fails_the_load() {
    let huge = vec![seg(1, u64::MAX, 0, 8, 1), seg(2, 1, 0, 8, 2)];
    let handle = IndexHandle::new(String::from("docs"), huge);
    assert!(matches!(handle.load_metas(), Err(Error::Corrupt)));
}

#[test]
fn closed_handle_is_unavailable() {
    let mut handle = IndexHandle::new(String::from("docs"), vec![seg(1, 10, 0, 1024, 1)]);
    handle.close();
    assert!(matches!(handle.load_metas(), Err(Error::Unavailable)));
}

#[test]
fn empty_index_summarizes_to_zero() {
    let handle = IndexHandle::new(String::from("docs"), vec![]);
    let summary = handle.load_metas().unwrap();
    assert_eq!(summary.segment_count(), 0);
    assert_eq!(summary.total_docs(), 0);
    assert_eq!(summary.total_deleted(), 0);
    assert_eq!(summary.total_size(), 0);
}
