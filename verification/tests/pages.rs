use tagbox::library::{CategoryPath, FileEntry, StoredFile};
use tagbox::metadata::ImportMetadata;
use tagbox::pages::{edited_file, EditPageState, ImportPageState};

fn entry() -> FileEntry {
    FileEntry {
        id: "42".to_string(),
        title: "Old Title".to_string(),
        path: "/docs/a.pdf".to_string(),
        tags: vec!["rust".to_string(), "book".to_string()],
        summary: Some("About Rust".to_string()),
        authors: vec!["Ann".to_string(), "Bob".to_string()],
        category: Some(CategoryPath { level1: "Tech".to_string(), level2: Some("Rust".to_string()), level3: None }),
        size: 10,
        modified_at: "m".to_string(),
        imported_at: "i".to_string(),
    }
}

fn extracted() -> ImportMetadata {
    ImportMetadata {
        title: "New Title".to_string(),
        authors: vec!["Cy".to_string()],
        year: Some(2021),
        publisher: Some("Pub".to_string()),
        source: None,
        category1: "Books".to_string(),
        category2: None,
        category3: Some("Deep".to_string()),
        tags: vec![],
        summary: None,
        full_text: None,
        additional_info: vec![],
    }
}

#[test]
fn edit_page_save_flow() {
    let mut p = EditPageState::new(&entry());
    assert_eq!(p.fields.authors, "Ann, Bob");
    assert_eq!(p.fields.category2, "Rust");
    assert_eq!(p.button_labels(), ("Save", "Delete"));
    p.fields.tags = " a, ,b ".to_string();
    let m = p.begin_save().unwrap();
    assert_eq!(m.tags, vec!["a".to_string(), "b".to_string()]);
    assert_eq!(m.category3, None);
    assert_eq!(m.summary.as_deref(), Some("About Rust"));
    assert!(p.begin_save().is_none());
    assert_eq!(p.button_labels().0, "Saving...");
    assert_eq!(p.finish_save(Err("disk full".to_string())), None);
    assert_eq!(p.save_error.as_deref(), Some("保存失败: disk full"));
    p.begin_save().unwrap();
    assert!(p.save_error.is_none());
    assert_eq!(p.finish_save(Ok(())).as_deref(), Some("文件保存成功"));
    assert!(!p.is_saving);
}

#[test]
fn edit_page_delete_extract_and_reset() {
    let mut p = EditPageState::new(&entry());
    p.ask_delete();
    assert!(p.show_delete_dialog);
    p.begin_delete();
    assert!(p.is_deleting && !p.show_delete_dialog);
    let end = p.finish_delete(Err("locked".to_string()));
    assert!(!end.leave && end.toast.is_none());
    assert_eq!(p.delete_error.as_deref(), Some("删除失败: locked"));
    p.begin_delete();
    let end = p.finish_delete(Ok(()));
    assert!(end.leave);
    assert_eq!(end.toast.as_deref(), Some("文件删除成功"));
    p.begin_extract();
    assert_eq!(p.finish_extract(Err("bad".to_string())), None);
    assert_eq!(p.extract_error.as_deref(), Some("元数据提取失败: bad"));
    p.begin_extract();
    assert_eq!(p.finish_extract(Ok(extracted())).as_deref(), Some("元数据提取成功"));
    assert_eq!(p.fields.title, "New Title");
    assert_eq!(p.fields.category2, "");
    assert_eq!(p.fields.category3, "Deep");
    p.reset();
    assert_eq!(p.fields.title, "Old Title");
    assert_eq!(p.fields.tags, "rust, book");
    assert!(p.save_error.is_none() && p.delete_error.is_none());
}

#[test]
fn import_page_flow() {
    let mut p = ImportPageState::new();
    assert!(p.begin_import().is_none());
    p.choose_file(Some("/in/x.pdf".to_string()));
    p.begin_extract();
    p.finish_extract(Ok(extracted()));
    assert_eq!(p.fields.year, "2021");
    assert_eq!(p.fields.publisher, "Pub");
    assert_eq!(p.fields.category3, "Deep");
    let (path, m) = p.begin_import().unwrap();
    assert_eq!(path, "/in/x.pdf");
    assert_eq!(m.year, Some(2021));
    assert_eq!(m.authors, vec!["Cy".to_string()]);
    assert!(p.is_loading);
    assert!(!p.finish_import(Err("exists".to_string())));
    assert_eq!(p.error_message.as_deref(), Some("文件导入失败: exists"));
    assert_eq!(p.selected_file.as_deref(), Some("/in/x.pdf"));
    p.begin_import().unwrap();
    assert!(p.finish_import(Ok(())));
    assert!(p.selected_file.is_none());
    assert_eq!(p.fields.title, "");
    assert!(!p.is_loading);
    p.begin_extract();
    p.finish_extract(Err("unreadable".to_string()));
    assert_eq!(p.error_message.as_deref(), Some("元数据提取失败: unreadable"));
}

fn stored(id: &str, title: &str, c1: &str) -> StoredFile {
    StoredFile {
        id: id.to_string(),
        title: title.to_string(),
        original_filename: "orig.pdf".to_string(),
        path: format!("/files/{}.pdf", id),
        category1: c1.to_string(),
        category2: Some("Sub".to_string()),
        category3: None,
        tags: vec!["t".to_string()],
        authors: vec!["Ann".to_string()],
        year: None,
        publisher: None,
        source: None,
        summary: Some("s".to_string()),
        created_at: "c".to_string(),
        updated_at: "u".to_string(),
        file_size_bytes: 12,
    }
}

#[test]
fn edit_page_finds_its_file_by_id() {
    let entries = vec![stored("1", "One", "Tech"), stored("2", "Two", ""), stored("2", "Again", "Tech")];
    let found = edited_file(&entries, "2").expect("file 2 is listed");
    assert_eq!(found.id, "2");
    assert_eq!(found.title, "Two");
    assert!(found.category.is_none());
    assert_eq!(found.modified_at, "u");
    assert_eq!(found.imported_at, "c");
    let first = edited_file(&entries, "1").unwrap();
    assert_eq!(first.category.unwrap().level2.as_deref(), Some("Sub"));
    assert!(edited_file(&entries, "3").is_none());
    assert!(edited_file(&Vec::new(), "1").is_none());
}
