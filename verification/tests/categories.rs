use tagbox::categories::{CategoryError, CategoryManager};
use tagbox::library::StoredFile;

fn file(c1: &str, c2: Option<&str>, c3: Option<&str>) -> StoredFile {
    StoredFile {
        id: "id".to_string(),
        title: "t".to_string(),
        original_filename: "orig.pdf".to_string(),
        path: "/p".to_string(),
        category1: c1.to_string(),
        category2: c2.map(|s| s.to_string()),
        category3: c3.map(|s| s.to_string()),
        tags: vec![],
        authors: vec![],
        year: None,
        publisher: None,
        source: None,
        summary: None,
        created_at: String::new(),
        updated_at: String::new(),
        file_size_bytes: 0,
    }
}

#[test]
fn add_checks_names_and_depth() {
    let mut m = CategoryManager::new();
    assert_eq!(m.add_category("   ", "", None), Err(CategoryError::EmptyName));
    assert_eq!(m.add_category(" Books ", "  about books ", None), Ok(()));
    assert_eq!(m.add_category("Books", "", None), Err(CategoryError::NameExists));
    assert_eq!(m.add_category("Rust", "", Some("Books")), Ok(()));
    assert_eq!(m.add_category("Async", "", Some("Rust")), Ok(()));
    assert_eq!(m.add_category("Deep", "", Some("Async")), Err(CategoryError::TooDeep));
    assert_eq!(CategoryError::TooDeep.message(), "Maximum category depth is 3 levels");
    assert_eq!(m.parent_choices(), vec!["Root Level", "Async", "Books", "Rust"]);
    assert_eq!(m.root_labels(), vec!["Books (0)"]);
}

#[test]
fn cycles_are_refused() {
    let mut m = CategoryManager::new();
    m.add_category("A", "", None).unwrap();
    m.add_category("B", "", Some("A")).unwrap();
    assert!(m.would_create_cycle("A", "B"));
    assert!(!m.would_create_cycle("C", "B"));
    m.select_category(Some("A"));
    assert_eq!(m.update_category("A", "", Some("B")), Err(CategoryError::CircularReference));
}

#[test]
fn rename_updates_references() {
    let mut m = CategoryManager::new();
    m.add_category("A", "", None).unwrap();
    m.add_category("B", "", Some("A")).unwrap();
    m.select_category(Some("A"));
    assert_eq!(m.update_category("Z", "desc", None), Ok(()));
    assert_eq!(m.root_labels(), vec!["Z (0)"]);
    assert_eq!(m.parent_choices(), vec!["Root Level", "B", "Z"]);
    m.select_category(Some("Z"));
    assert_eq!(m.delete_category(true), Err(CategoryError::HasSubcategories));
    m.select_category(Some("B"));
    assert_eq!(m.delete_prompt(), None);
    assert_eq!(m.delete_category(false), Ok(()));
    assert_eq!(m.parent_choices(), vec!["Root Level", "Z"]);
    assert_eq!(m.delete_category(false), Err(CategoryError::NoSelection));
}

#[test]
fn loading_counts_files() {
    let files = vec![
        file("Books", Some("Rust"), Some("Async")),
        file("Books", Some("Rust"), None),
        file("Papers", None, Some("ignored")),
    ];
    let mut m = CategoryManager::new();
    m.load_categories(&files);
    assert_eq!(m.root_labels(), vec!["Books (2)", "Papers (1)"]);
    assert_eq!(m.parent_choices(), vec!["Root Level", "Async", "Books", "Papers", "Rust"]);
    m.select_category(Some("Books"));
    assert_eq!(m.delete_category(true), Err(CategoryError::HasSubcategories));
    m.select_category(Some("Async"));
    assert_eq!(
        m.delete_prompt(),
        Some("Category 'Async' contains 1 files. These files will be moved to the parent category or 'Default'. Continue?".to_string())
    );
    assert_eq!(m.delete_category(false), Ok(()));
    assert_eq!(m.parent_choices().len(), 5);
    assert_eq!(m.delete_category(true), Ok(()));
    assert_eq!(m.parent_choices(), vec!["Root Level", "Books", "Papers", "Rust"]);
}

#[test]
fn editor_shows_the_selection() {
    let mut m = CategoryManager::new();
    m.add_category("Books", "about books", None).unwrap();
    m.add_category("Rust", "", Some("Books")).unwrap();
    let choices = m.parent_choices();
    let empty = m.edit_area(&choices).unwrap();
    assert_eq!(empty.name, "");
    assert_eq!(empty.parent_choice, Some(0));
    assert!(!empty.buttons_active);
    m.select_category(Some("Rust"));
    let a = m.edit_area(&choices).unwrap();
    assert_eq!(a.name, "Rust");
    assert_eq!(a.description, "");
    assert_eq!(a.parent_choice, Some(1));
    assert!(a.buttons_active);
    m.select_category(Some("Books"));
    let b = m.edit_area(&choices).unwrap();
    assert_eq!(b.description, "about books");
    assert_eq!(b.parent_choice, Some(0));
    m.select_category(Some("Rust"));
    assert_eq!(m.edit_area(&vec!["Root Level".to_string()]).unwrap().parent_choice, None);
    m.select_category(Some("Nothing"));
    assert!(m.edit_area(&choices).is_none());
}
