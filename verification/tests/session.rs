use tagbox::library::{SearchResult, StoredFile};
use tagbox::metadata::DialogFields;
use tagbox::session::{Action, App, AppEvent, AppState, CategoryTreeState};
use tagbox::settings::ConfigValues;

fn stored(id: &str, title: &str) -> StoredFile {
    StoredFile {
        id: id.to_string(),
        title: title.to_string(),
        original_filename: "orig.pdf".to_string(),
        path: format!("/files/{}.pdf", id),
        category1: "Books".to_string(),
        category2: None,
        category3: None,
        tags: vec![],
        authors: vec![],
        year: None,
        publisher: None,
        source: None,
        summary: None,
        created_at: String::new(),
        updated_at: String::new(),
        file_size_bytes: 0,
    }
}

fn loaded_app() -> App {
    let mut app = App::new();
    let result = SearchResult {
        entries: vec![stored("a", "Alpha"), stored("b", "Beta")],
        total_count: 2,
        offset: 0,
        limit: 50,
    };
    app.handle_event(AppEvent::SearchResults(result));
    app
}

fn status_texts(actions: &[Action]) -> Vec<String> {
    actions
        .iter()
        .filter_map(|a| match a {
            Action::Status(m, _) => Some(m.clone()),
            _ => None,
        })
        .collect()
}

#[test]
fn tree_state_is_a_set() {
    let mut t = CategoryTreeState::new();
    t.expand_category("A".to_string());
    t.expand_category("A".to_string());
    t.expand_category("B".to_string());
    assert_eq!(t.expanded_nodes.len(), 2);
    assert!(t.is_expanded("A"));
    t.collapse_category("A");
    assert!(!t.is_expanded("A"));
    assert!(t.is_expanded("B"));
}

#[test]
fn state_selects_by_id() {
    let mut s = AppState::new();
    s.set_files(vec![stored("x", "X"), stored("y", "Y")]);
    s.select_file("y");
    assert_eq!(s.selected_file.as_ref().map(|f| f.title.clone()), Some("Y".to_string()));
    s.select_file("zzz");
    assert!(s.selected_file.is_none());
    assert_eq!(s.get_files().len(), 2);
}

#[test]
fn results_are_shown_and_counted() {
    let mut app = App::new();
    let empty = SearchResult { entries: vec![], total_count: 0, offset: 0, limit: 50 };
    let actions = app.handle_event(AppEvent::SearchResults(empty));
    assert_eq!(status_texts(&actions), vec!["✅ Loaded 0 files", "⚠️ No results found"]);
    let app = loaded_app();
    assert_eq!(app.state.current_files.len(), 2);
    assert!(!app.state.is_loading);
}

#[test]
fn file_refs_by_index_and_id() {
    let app = loaded_app();
    assert_eq!(app.get_file_by_ref("index:1"), Some(1));
    assert_eq!(app.get_file_by_ref("index:2"), None);
    assert_eq!(app.get_file_by_ref("index:x"), None);
    assert_eq!(app.get_file_by_ref("a"), Some(0));
    assert_eq!(app.get_file_by_ref("nope"), None);
}

#[test]
fn selecting_by_index_previews() {
    let mut app = loaded_app();
    let actions = app.handle_event(AppEvent::FileSelected("index:1".to_string()));
    assert!(matches!(actions[0], Action::SelectRow(1)));
    assert!(matches!(&actions[1], Action::LoadFile(id) if id == "index:1"));
    assert_eq!(app.preview_file.as_ref().unwrap().id, "b");
    let actions = app.handle_event(AppEvent::FileOpen("ignored".to_string()));
    assert!(matches!(&actions[0], Action::OpenPath(p) if p == "/files/b.pdf"));
}

#[test]
fn editing_flow() {
    let mut app = loaded_app();
    app.handle_event(AppEvent::FileEdit("a".to_string()));
    assert_eq!(app.editing_file_id.as_deref(), Some("a"));
    let actions = app.handle_event(AppEvent::FileLoaded(stored("a", "Alpha")));
    assert!(matches!(&actions[0], Action::EditForm(f) if f.id == "a"));
    assert_eq!(status_texts(&actions), vec!["✏️ Editing: Alpha"]);

    let mut fields = DialogFields::new();
    let actions = app.handle_event(AppEvent::SaveFile(fields.clone()));
    assert_eq!(status_texts(&actions), vec!["❌ Validation error: Title is required"]);
    assert!(app.editing_file_id.is_some());

    fields.title = "New".to_string();
    let actions = app.handle_event(AppEvent::SaveFile(fields));
    assert!(matches!(&actions[0], Action::SaveEdit(id, m) if id == "a" && m.title == "New"));
    assert!(app.editing_file_id.is_none());
}

#[test]
fn deleting_from_the_editor_and_by_ref() {
    let mut app = loaded_app();
    app.handle_event(AppEvent::FileEdit("b".to_string()));
    let actions = app.handle_event(AppEvent::DeleteFile("editing".to_string()));
    assert!(matches!(&actions[0], Action::DeleteFile(id) if id == "b"));
    assert!(app.editing_file_id.is_none());
    let actions = app.handle_event(AppEvent::DeleteFile("index:0".to_string()));
    assert!(matches!(&actions[0], Action::DeleteFile(id) if id == "a"));
    assert_eq!(status_texts(&actions), vec!["🗑️ Deleting: Alpha"]);
}

#[test]
fn selected_file_actions() {
    let mut app = loaded_app();
    let actions = app.handle_event(AppEvent::DeleteSelectedFile);
    assert_eq!(status_texts(&actions), vec!["⚠️ No file selected"]);
    app.handle_event(AppEvent::FileSelected("b".to_string()));
    let actions = app.handle_event(AppEvent::DeleteSelectedFile);
    assert!(matches!(&actions[0], Action::ConfirmDelete(id, q, _) if id == "b" && q == "Are you sure you want to delete 'Beta'?"));
    app.handle_event(AppEvent::EditSelectedFile);
    assert_eq!(app.editing_file_id.as_deref(), Some("b"));
}

#[test]
fn category_and_import_events() {
    let mut app = loaded_app();
    let actions = app.handle_event(AppEvent::CategorySelect("Books".to_string()));
    assert!(matches!(&actions[0], Action::EmitSearch(q) if q == "category:Books"));
    assert!(matches!(&actions[3], Action::CategorySearch(p) if p == "Books"));
    assert!(app.state.is_loading);
    let actions = app.handle_event(AppEvent::FileImport("/tmp/in/paper.pdf".to_string()));
    assert_eq!(status_texts(&actions), vec!["📥 Importing: paper.pdf"]);
    let actions = app.handle_event(AppEvent::FileImport("/".to_string()));
    assert_eq!(status_texts(&actions), vec!["📥 Importing: file"]);
    let actions = app.handle_event(AppEvent::Error("boom".to_string()));
    assert!(matches!(&actions[2], Action::Alert(m) if m == "Error: boom"));
    app.handle_event(AppEvent::CategoryExpand("Books".to_string()));
    assert!(app.state.category_tree.is_expanded("Books"));
    let actions = app.handle_event(AppEvent::CategoryCreated("New".to_string()));
    assert_eq!(status_texts(&actions), vec!["✅ Category 'New' created"]);
    assert!(matches!(actions[1], Action::EmitRefresh));
}

#[test]
fn config_reload_replaces_or_keeps_the_configuration() {
    let mut app = loaded_app();
    assert!(app.config.is_none());
    let update = app.handle_event(AppEvent::ConfigUpdated("/etc/tagbox/config.toml".to_string()));
    assert!(matches!(update.as_slice(), [Action::ReloadConfig(p)] if p == "/etc/tagbox/config.toml"));
    let config = ConfigValues {
        database_path: "/data/db.sqlite".to_string(),
        storage_dir: "/data/files".to_string(),
        prefer_json: true,
        enable_fts: false,
        default_limit: 50,
    };
    let ok = app.config_loaded("/etc/tagbox/config.toml".to_string(), Ok(config));
    assert_eq!(app.config.as_ref().map(|c| c.default_limit), Some(50));
    assert!(matches!(ok.as_slice(), [Action::Status(m, 3000), Action::EmitRefresh] if m == "✅ Config loaded: config.toml"));
    let failed = app.config_loaded("/etc/other.toml".to_string(), Err("bad toml".to_string()));
    assert_eq!(app.config.as_ref().map(|c| c.database_path.as_str()), Some("/data/db.sqlite"));
    assert!(matches!(failed.as_slice(), [Action::Status(m, 5000)] if m == "❌ Failed to reload config: bad toml"));
}
