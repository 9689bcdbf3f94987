use tagbox::library::StoredFile;
use tagbox::session::AppEvent;
use tagbox::tree::{
    all_files_label, created_category_event, delete_question, menu_items, parse_category_from_label,
    refresh_tree_labels, rename_event, subcategory_event, tree_click_event, tree_menu_choice, update_file_counts,
    TreeMenuAction,
};

fn filed(c1: &str, c2: Option<&str>, c3: Option<&str>) -> StoredFile {
    StoredFile {
        id: "x".to_string(),
        title: "t".to_string(),
        original_filename: "t.pdf".to_string(),
        path: "/t.pdf".to_string(),
        category1: c1.to_string(),
        category2: c2.map(|s| s.to_string()),
        category3: c3.map(|s| s.to_string()),
        tags: vec![],
        authors: vec![],
        year: None,
        publisher: None,
        source: None,
        summary: None,
        created_at: String::new(),
        updated_at: String::new(),
        file_size_bytes: 0,
    }
}

#[test]
fn labels_read_back_as_categories() {
    assert_eq!(parse_category_from_label("📁 Tech (12)"), "Tech");
    assert_eq!(parse_category_from_label("📄 📂 Notes"), "Notes");
    assert_eq!(parse_category_from_label("📁 A (b) (3)"), "A (b)");
    assert_eq!(parse_category_from_label(&all_files_label(7)), "All Files");
    assert_eq!(all_files_label(7), "📁 All Files (7)");
}

#[test]
fn clicks_on_labels() {
    match tree_click_event("📁 All Files (3)") {
        Some(AppEvent::SearchQuery(q)) => assert!(q.is_empty()),
        _ => panic!("search expected"),
    }
    match tree_click_event("📁 Tech/Rust (1)") {
        Some(AppEvent::CategorySelect(p)) => assert_eq!(p, "Tech/Rust"),
        _ => panic!("category expected"),
    }
    assert!(tree_click_event("📁 ").is_none());
}

#[test]
fn counts_per_category_path() {
    let files = vec![
        filed("Tech", Some("Rust"), None),
        filed("Tech", None, None),
        filed("Books", Some("Novel"), Some("SF")),
    ];
    let counts = update_file_counts(&files);
    assert_eq!(
        counts,
        vec![
            ("Tech".to_string(), 2),
            ("Tech/Rust".to_string(), 1),
            ("Books".to_string(), 1),
            ("Books/Novel".to_string(), 1),
            ("Books/Novel/SF".to_string(), 1),
        ]
    );
    let labels = refresh_tree_labels(&counts);
    assert_eq!(labels, vec!["📁 All Files (6)", "📚 Books (1)", "📂 Tech (2)"]);
    assert_eq!(refresh_tree_labels(&Vec::new()), vec!["📁 All Files (1)"]);
}

#[test]
fn context_menu() {
    assert_eq!(menu_items("All Files").len(), 3);
    let items = menu_items("Tech");
    assert_eq!(items[0], "📂 View Files in 'Tech'");
    assert_eq!(items[3], "🗑️ Delete 'Tech'");
    assert!(matches!(tree_menu_choice("All Files", 1), Some(TreeMenuAction::CreateCategory)));
    assert!(matches!(tree_menu_choice("Tech", 2), Some(TreeMenuAction::Rename(p)) if p == "Tech"));
    assert!(matches!(tree_menu_choice("Tech", 4), Some(TreeMenuAction::Send(AppEvent::RefreshView))));
    assert!(tree_menu_choice("Tech", 5).is_none());
    assert!(tree_menu_choice("All Files", 3).is_none());
}

#[test]
fn dialogs_give_events() {
    assert!(matches!(created_category_event(Some("  New ")), Some(AppEvent::CategoryCreated(n)) if n == "New"));
    assert!(created_category_event(Some("   ")).is_none());
    assert!(created_category_event(None).is_none());
    assert!(matches!(subcategory_event("Tech", Some(" Go")), Some(AppEvent::CategoryCreated(n)) if n == "Tech/Go"));
    assert!(matches!(rename_event("Tech", Some("Technology")), Some(AppEvent::CategoryUpdated(n)) if n == "Tech:Technology"));
    assert!(rename_event("Tech", Some(" Tech ")).is_none());
    assert_eq!(
        delete_question("Tech"),
        "Are you sure you want to delete category 'Tech'?\nFiles in this category will be moved to 'Uncategorized'."
    );
}

#[test]
fn default_labels_and_round_trips() {
    let labels = tagbox::tree::default_tree_labels();
    assert_eq!(labels.len(), 6);
    assert_eq!(labels[2], "📂 Books (0)");
    for l in &labels[1..] {
        let name = parse_category_from_label(l);
        assert_eq!(format!("📂 {} (0)", name), *l);
    }
    for icon in ["📁", "📄", "📂"] {
        for count in [0usize, 9, 1234] {
            let label = format!("{} Notes (old) ({})", icon, count);
            assert_eq!(parse_category_from_label(&label), "Notes (old)");
        }
    }
}

#[test]
fn names_starting_with_icons() {
    assert_eq!(parse_category_from_label("📁 📂x (2)"), "📂x");
    assert_eq!(parse_category_from_label("📁 📂 Notes (2)"), "Notes");
}

#[test]
fn hierarchy_of_categories() {
    let files = vec![
        filed("Tech", Some("Rust"), None),
        filed("Tech", None, None),
        filed("Books", Some("Novel"), Some("SF")),
    ];
    assert_eq!(
        tagbox::hierarchy::hierarchy_tree(&files),
        vec![
            "📁 All Files (3)",
            "📂 Books (1)",
            "Books/📂 Novel (1)",
            "Books/Novel/📄 SF (1)",
            "📂 Tech (2)",
            "Tech/📄 Rust (1)",
        ]
    );
    assert_eq!(tagbox::hierarchy::hierarchy_tree(&Vec::new()), vec!["📁 All Files (0)"]);
}
