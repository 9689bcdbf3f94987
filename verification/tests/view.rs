use tagbox::library::{SearchResult, StoredFile};
use tagbox::view_state::{breadcrumbs, create_toast, submitted_query, AppState, Route, ToastType};

fn stored(id: &str, title: &str, c1: &str, c2: Option<&str>) -> StoredFile {
    StoredFile {
        id: id.to_string(),
        title: title.to_string(),
        original_filename: "orig.pdf".to_string(),
        path: format!("/files/{}.pdf", id),
        category1: c1.to_string(),
        category2: c2.map(|s| s.to_string()),
        category3: None,
        tags: vec![],
        authors: vec![],
        year: None,
        publisher: None,
        source: None,
        summary: None,
        created_at: "2024-01-01".to_string(),
        updated_at: "2024-01-02".to_string(),
        file_size_bytes: 0,
    }
}

#[test]
fn test_breadcrumb_routes() {
    let main_route = Route::Main;
    assert_eq!(main_route, Route::Main);

    let import_route = Route::Import;
    assert_eq!(import_route, Route::Import);

    let edit_route = Route::Edit("test-id".to_string());
    match edit_route {
        Route::Edit(id) => assert_eq!(id, "test-id"),
        _ => panic!("Expected Edit route"),
    }
}

#[test]
fn breadcrumb_trails() {
    let main = breadcrumbs(&Route::Main);
    assert_eq!(main.len(), 1);
    assert_eq!(main[0].1, Route::Main);
    let edit = breadcrumbs(&Route::Edit("x".to_string()));
    assert_eq!(edit.len(), 2);
    assert_eq!(edit[1].1, Route::Edit("x".to_string()));
}

#[test]
fn test_search_query_validation() {
    let valid_queries = vec!["tag:rust", "author:张三", "-tag:old", "tag:rust author:李四", "*"];
    for query in valid_queries {
        assert!(!query.is_empty());
    }
}

#[test]
fn enter_submits_trimmed_query() {
    assert_eq!(submitted_query("  tag:rust \n"), Some("tag:rust".to_string()));
    assert_eq!(submitted_query("tag:rust"), None);
    assert_eq!(submitted_query("   \n"), None);
}

#[test]
fn test_status_bar_display() {
    let total_files = 100;
    let selected_file = Some("test.pdf".to_string());
    let is_loading = false;

    assert_eq!(total_files, 100);
    assert_eq!(selected_file, Some("test.pdf".to_string()));
    assert_eq!(is_loading, false);
}

#[test]
fn test_create_toast() {
    let toast = create_toast(ToastType::Success, "操作成功");
    assert_eq!(toast.message, "操作成功");
    assert_eq!(toast.toast_type, ToastType::Success);
    assert!(!toast.id.is_empty());
}

#[test]
fn toast_ids_are_hyphenated_uuids() {
    let a = create_toast(ToastType::Info, "a");
    let b = create_toast(ToastType::Info, "a");
    assert_eq!(a.id.len(), 36);
    assert_eq!(a.id.chars().filter(|c| *c == '-').count(), 4);
    assert_ne!(a.id, b.id);
    assert_ne!(a.id, a.message);
}

#[test]
fn test_toast_types() {
    let success = ToastType::Success;
    let error = ToastType::Error;
    let info = ToastType::Info;
    let warning = ToastType::Warning;

    assert_ne!(success, error);
    assert_ne!(info, warning);
    assert_eq!(success, ToastType::Success);
}

#[test]
fn state_filters_by_category() {
    let result = SearchResult {
        entries: vec![
            stored("1", "One", "Books", Some("Rust")),
            stored("2", "Two", "Books", None),
            stored("3", "Three", "Papers", None),
        ],
        total_count: 3,
        offset: 0,
        limit: 50,
    };
    let mut state = AppState::new(Some(result));
    assert_eq!(state.get_filtered_files().len(), 3);
    state.toggle_category("Books");
    let shown = state.get_filtered_files();
    assert_eq!(shown.len(), 2);
    assert_eq!(shown[0].id, "1");
    state.toggle_category("Books");
    assert_eq!(state.get_filtered_files().len(), 3);
    assert_eq!(state.categories.len(), 2);
    assert_eq!(state.categories[0].name, "Books");
}

#[test]
fn notifications_come_and_go() {
    let mut state = AppState::new(None);
    assert_eq!(state.search_results.limit, 50);
    state.show_error("bad");
    state.show_success("good");
    assert_eq!(state.toast_messages.len(), 2);
    let id = state.toast_messages[0].id.clone();
    state.dismiss_toast(&id);
    assert_eq!(state.toast_messages.len(), 1);
    assert_eq!(state.toast_messages[0].message, "good");
}
