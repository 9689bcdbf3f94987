use tagbox::library::{SearchResult, StoredFile};
use tagbox::session::AppEvent;
use tagbox::tasks::{file_load_finished, import_finished, search_finished, BatchImport};

fn stored(id: &str) -> StoredFile {
    StoredFile {
        id: id.to_string(),
        title: "t".to_string(),
        original_filename: "t.pdf".to_string(),
        path: "/t.pdf".to_string(),
        category1: String::new(),
        category2: None,
        category3: None,
        tags: vec![],
        authors: vec![],
        year: None,
        publisher: None,
        source: None,
        summary: None,
        created_at: String::new(),
        updated_at: String::new(),
        file_size_bytes: 0,
    }
}

#[test]
fn search_task_events() {
    let ok = search_finished(Ok(SearchResult { entries: vec![stored("a")], total_count: 1, offset: 0, limit: 50 }), "Search failed");
    assert_eq!(ok.len(), 2);
    assert!(matches!(&ok[0], AppEvent::SearchResults(r) if r.entries.len() == 1));
    assert!(matches!(ok[1], AppEvent::LoadingEnd));
    let err = search_finished(Err("db locked".to_string()), "Category search failed");
    assert!(matches!(&err[0], AppEvent::Error(m) if m == "Category search failed: db locked"));
    assert!(matches!(err[1], AppEvent::LoadingEnd));
}

#[test]
fn file_and_import_task_events() {
    assert!(matches!(file_load_finished(Ok(stored("x"))), AppEvent::FileLoaded(f) if f.id == "x"));
    assert!(matches!(file_load_finished(Err("gone".to_string())), AppEvent::Error(m) if m == "Load file failed: gone"));
    let ok = import_finished(Ok(stored("n")));
    assert_eq!(ok.len(), 3);
    assert!(matches!(ok[1], AppEvent::RefreshView));
    let err = import_finished(Err("bad pdf".to_string()));
    assert_eq!(err.len(), 2);
    assert!(matches!(&err[0], AppEvent::Error(m) if m == "Import failed: bad pdf"));
}

#[test]
fn batch_import_counts() {
    let mut b = BatchImport::new(3);
    assert!(matches!(b.record("/a.pdf", Ok(stored("a"))), AppEvent::FileImported(_)));
    assert!(matches!(b.record("/b.pdf", Err("broken".to_string())), AppEvent::Error(m) if m == "Failed to import /b.pdf: broken"));
    b.record("/c.pdf", Ok(stored("c")));
    assert_eq!((b.successful, b.failed), (2, 1));
    let end = b.finish();
    assert!(matches!(end[0], AppEvent::RefreshView));
    assert!(matches!(end[1], AppEvent::LoadingEnd));
}
