use index_catalog::Error;
use index_catalog::IndexCatalog;
use index_catalog::IndexHandle;
use index_catalog::SegmentMeta;
use index_catalog::SummaryHandler;
use index_catalog::new_shared_catalog;
use index_catalog::register_shared;
use index_catalog::remove_shared;

fn seg(segment_id: u64, num_docs: u64, num_deleted: u64, size_bytes: u64, generation: u64) -> SegmentMeta {
    SegmentMeta::new(segment_id, num_docs, num_deleted, size_bytes, generation).unwrap()
}

fn docs_handle() -> IndexHandle {
    IndexHandle::new(String::from("docs"), vec![seg(1, 10, 0, 1024, 1), seg(2, 5, 2, 512, 2)])
}

#[test]
fn unregistered_names_are_absent() {
    let catalog = IndexCatalog::new();
    assert!(!catalog.contains(&String::from("docs")));
    assert!(!catalog.contains(&String::from("")));
    assert!(matches!(catalog.get(&String::from("docs")), Err(Error::NotFound)));
}

#[test]
fn register_makes_name_visible_until_removed() {
    let mut catalog = IndexCatalog::new();
    assert!(catalog.register(String::from("docs"), docs_handle()).is_ok());

    assert!(catalog.contains(&String::from("docs")));
    let got = catalog.get(&String::from("docs")).unwrap();
    assert_eq!(got.name, String::from("docs"));
    assert_eq!(got.segments, docs_handle().segments);
    assert!(got.is_open);

    let removed = catalog.remove(&String::from("docs")).unwrap();
    assert_eq!(removed.segments, docs_handle().segments);
    assert!(!catalog.contains(&String::from("docs")));
    assert!(matches!(catalog.get(&String::from("docs")), Err(Error::NotFound)));
}

#[test]
fn duplicate_register_keeps_existing_entry() {
    let mut catalog = IndexCatalog::new();
    assert!(catalog.register(String::from("docs"), docs_handle()).is_ok());

    let other = IndexHandle::new(String::from("docs"), vec![seg(9, 1, 0, 64, 9)]);
    assert!(matches!(catalog.register(String::from("docs"), other), Err(Error::AlreadyExists)));

    let got = catalog.get(&String::from("docs")).unwrap();
    assert_eq!(got.segments, docs_handle().segments);
}

#[test]
fn remove_absent_leaves_catalog_unchanged() {
    let mut catalog = IndexCatalog::new();
    assert!(catalog.register(String::from("docs"), docs_handle()).is_ok());

    assert!(matches!(catalog.remove(&String::from("other")), Err(Error::NotFound)));

    assert!(catalog.contains(&String::from("docs")));
    let got = catalog.get(&String::from("docs")).unwrap();
    assert_eq!(got.segments, docs_handle().segments);
}

#[test]
fn names_are_case_sensitive() {
    let mut catalog = IndexCatalog::new();
    assert!(catalog.register(String::from("Docs"), docs_handle()).is_ok());
    assert!(!catalog.contains(&String::from("docs")));
    assert!(matches!(catalog.get(&String::from("docs")), Err(Error::NotFound)));
}

#[test]
fn shared_catalog_is_seen_by_every_handler() {
    let catalog = new_shared_catalog();
    let first = SummaryHandler::new(catalog.clone());
    let second = first.clone();

    assert!(register_shared(&catalog, String::from("docs"), docs_handle()).is_ok());
    assert!(first.contains(&String::from("docs")));
    assert!(second.contains(&String::from("docs")));

    assert!(matches!(
        register_shared(&catalog, String::from("docs"), docs_handle()),
        Err(Error::AlreadyExists)
    ));

    let removed = remove_shared(&catalog, &String::from("docs")).unwrap();
    assert_eq!(removed.segments, docs_handle().segments);
    assert!(!first.contains(&String::from("docs")));
    assert!(!second.contains(&String::from("docs")));
    assert!(matches!(remove_shared(&catalog, &String::from("docs")), Err(Error::NotFound)));
}

#[test]
fn prepopulated_catalog_can_be_shared() {
    let mut catalog = IndexCatalog::new();
    assert!(catalog.register(String::from("docs"), docs_handle()).is_ok());

    let shared = index_catalog::share_catalog(catalog);
    let handler = SummaryHandler::new(shared);
    assert!(handler.contains(&String::from("docs")));
    assert!(handler.summary(&String::from("docs")).is_ok());
}

#[test]
fn error_labels_are_stable() {
    assert_eq!(Error::NotFound.label(), "not_found");
    assert_eq!(Error::AlreadyExists.label(), "already_exists");
    assert_eq!(Error::Unavailable.label(), "unavailable");
    assert_eq!(Error::Corrupt.label(), "corrupt");
    assert_eq!(Error::Internal.label(), "internal");
}
