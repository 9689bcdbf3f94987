use tagbox::library::{CategoryPath, FileEntry, StoredFile};
use tagbox::metadata::{
    delete_request, join_with, update_request, DialogFields, EditFields, FormError, ImportFields,
    ImportMetadata,
};
use tagbox::text::comma_list;

fn sample_metadata() -> ImportMetadata {
    ImportMetadata {
        title: "Rust Book".to_string(),
        authors: vec!["Steve".to_string(), "Carol".to_string()],
        year: Some(2019),
        publisher: Some("No Starch".to_string()),
        source: None,
        category1: "Books".to_string(),
        category2: Some("Programming".to_string()),
        category3: None,
        tags: vec!["rust".to_string(), "systems".to_string()],
        summary: None,
        full_text: None,
        additional_info: vec![],
    }
}

#[test]
fn test_metadata_parsing() {
    let authors_str = "Author 1, Author 2, , Author 3";
    let authors: Vec<String> = comma_list(authors_str);
    assert_eq!(authors, vec!["Author 1", "Author 2", "Author 3"]);

    let tags_str = "tag1,tag2,,tag3,   tag4   ";
    let tags: Vec<String> = comma_list(tags_str);
    assert_eq!(tags, vec!["tag1", "tag2", "tag3", "tag4"]);
}

#[test]
fn test_import_metadata_construction() {
    let title = "Test Title";
    let authors = vec!["Author 1".to_string(), "Author 2".to_string()];
    let category1 = "Category 1";
    let category2 = "Category 2";
    let category3 = "";
    let tags = vec!["tag1".to_string(), "tag2".to_string()];
    let summary = "Test summary";

    let metadata = ImportMetadata {
        title: title.to_string(),
        authors: authors.clone(),
        year: None,
        publisher: None,
        source: None,
        category1: category1.to_string(),
        category2: if category2.is_empty() { None } else { Some(category2.to_string()) },
        category3: if category3.is_empty() { None } else { Some(category3.to_string()) },
        tags: tags.clone(),
        summary: if summary.is_empty() { None } else { Some(summary.to_string()) },
        full_text: None,
        additional_info: vec![],
    };

    assert_eq!(metadata.title, "Test Title");
    assert_eq!(metadata.authors, authors);
    assert_eq!(metadata.category1, "Category 1");
    assert_eq!(metadata.category2, Some("Category 2".to_string()));
    assert_eq!(metadata.category3, None);
    assert_eq!(metadata.tags, tags);
    assert_eq!(metadata.summary, Some("Test summary".to_string()));
}

#[test]
fn edit_page_builds_the_same_metadata() {
    let fields = EditFields {
        title: "Test Title".to_string(),
        authors: "Author 1, Author 2".to_string(),
        tags: "tag1, tag2".to_string(),
        summary: "Test summary".to_string(),
        category1: "Category 1".to_string(),
        category2: "Category 2".to_string(),
        category3: "".to_string(),
    };
    let m = fields.to_metadata();
    assert_eq!(m.title, "Test Title");
    assert_eq!(m.authors, vec!["Author 1", "Author 2"]);
    assert_eq!(m.category1, "Category 1");
    assert_eq!(m.category2, Some("Category 2".to_string()));
    assert_eq!(m.category3, None);
    assert_eq!(m.tags, vec!["tag1", "tag2"]);
    assert_eq!(m.summary, Some("Test summary".to_string()));
    assert_eq!(m.year, None);
}

#[test]
fn join_puts_separators_between() {
    assert_eq!(join_with(&vec![], ", "), "");
    assert_eq!(join_with(&vec!["a".to_string()], ", "), "a");
    assert_eq!(join_with(&vec!["a".to_string(), "b".to_string(), "c".to_string()], ", "), "a, b, c");
}

#[test]
fn edit_fields_round_trip() {
    let m = sample_metadata();
    let fields = EditFields::from_metadata(&m);
    assert_eq!(fields.authors, "Steve, Carol");
    assert_eq!(fields.tags, "rust, systems");
    assert_eq!(fields.category3, "");
    let back = fields.to_metadata();
    assert_eq!(back.authors, m.authors);
    assert_eq!(back.tags, m.tags);
    assert_eq!(back.category2, m.category2);
    assert_eq!(back.title, m.title);
}

#[test]
fn edit_fields_from_entry() {
    let e = FileEntry {
        id: "1".to_string(),
        title: "T".to_string(),
        path: "/p".to_string(),
        tags: vec!["x".to_string()],
        summary: None,
        authors: vec![],
        category: Some(CategoryPath {
            level1: "A".to_string(),
            level2: None,
            level3: Some("C".to_string()),
        }),
        size: 0,
        modified_at: "m".to_string(),
        imported_at: "i".to_string(),
    };
    let f = EditFields::from_entry(&e);
    assert_eq!(f.category1, "A");
    assert_eq!(f.category2, "");
    assert_eq!(f.category3, "C");
    assert_eq!(f.summary, "");
    assert_eq!(f.tags, "x");
}

#[test]
fn import_page_defaults_and_year() {
    let mut f = ImportFields::new();
    f.title = "T".to_string();
    f.year = "2021".to_string();
    let m = f.to_metadata();
    assert_eq!(m.category1, "未分类");
    assert_eq!(m.year, Some(2021));
    assert_eq!(m.publisher, None);
    f.year = "twenty".to_string();
    assert_eq!(f.to_metadata().year, None);
    f.year = " 2021".to_string();
    assert_eq!(f.to_metadata().year, None);
}

#[test]
fn import_page_keeps_fields_the_metadata_lacks() {
    let mut f = ImportFields::new();
    f.publisher = "Kept".to_string();
    f.year = "1999".to_string();
    let mut m = sample_metadata();
    m.publisher = None;
    m.year = None;
    f.apply_metadata(&m);
    assert_eq!(f.publisher, "Kept");
    assert_eq!(f.year, "1999");
    assert_eq!(f.authors, "Steve, Carol");
    m.year = Some(-44);
    f.apply_metadata(&m);
    assert_eq!(f.year, "-44");
}

#[test]
fn dialog_checks_title_and_year() {
    let mut d = DialogFields::new();
    assert_eq!(d.validate_form(), Err(FormError::TitleRequired));
    assert_eq!(FormError::TitleRequired.message(), "Title is required");
    d.title = "  T ".to_string();
    assert_eq!(d.validate_form(), Ok(()));
    d.year = "19x9".to_string();
    assert_eq!(d.validate_form(), Err(FormError::InvalidYear));
    assert_eq!(FormError::InvalidYear.message(), "Invalid year format");
    d.year = "-12".to_string();
    assert_eq!(d.validate_form(), Ok(()));
}

#[test]
fn dialog_collects_metadata() {
    let mut d = DialogFields::new();
    d.title = "T".to_string();
    d.authors = "a, b".to_string();
    d.publisher = "  ".to_string();
    d.source = " web ".to_string();
    d.summary = "s".to_string();
    let m = d.collect_form_data();
    assert_eq!(m.category1, "Default");
    assert_eq!(m.publisher, None);
    assert_eq!(m.source, Some(" web ".to_string()));
    assert_eq!(m.year, None);
    d.category1 = Some("Books".to_string());
    d.category2 = Some("Rust".to_string());
    let m = d.collect_form_data();
    assert_eq!(m.category1, "Books");
    assert_eq!(m.category2, Some("Rust".to_string()));
    let i = d.collect_import_data();
    assert_eq!(i.category1, "Default");
    assert_eq!(i.category2, None);
}

#[test]
fn dialog_populated_from_file_and_metadata() {
    let file = StoredFile {
        id: "9".to_string(),
        title: "Title".to_string(),
        original_filename: "orig.pdf".to_string(),
        path: "/x".to_string(),
        category1: "C".to_string(),
        category2: None,
        category3: None,
        tags: vec!["t1".to_string(), "t2".to_string()],
        authors: vec!["A".to_string()],
        year: Some(2001),
        publisher: None,
        source: Some("src".to_string()),
        summary: Some("sum".to_string()),
        created_at: "c".to_string(),
        updated_at: "u".to_string(),
        file_size_bytes: 0,
    };
    let mut d = DialogFields::new();
    d.category1 = Some("Keep".to_string());
    d.populate_form(&file);
    assert_eq!(d.year, "2001");
    assert_eq!(d.tags, "t1, t2");
    assert_eq!(d.publisher, "");
    assert_eq!(d.source, "src");
    assert_eq!(d.category1, Some("Keep".to_string()));
    let mut m = sample_metadata();
    m.source = None;
    d.populate_from_metadata(&m);
    assert_eq!(d.source, "src");
    assert_eq!(d.publisher, "No Starch");
    assert_eq!(d.title, "Rust Book");
}

#[test]
fn update_requests() {
    let mut m = sample_metadata();
    m.title = String::new();
    m.tags = vec![];
    let u = update_request(m);
    assert_eq!(u.title, None);
    assert_eq!(u.tags, None);
    assert_eq!(u.authors, Some(vec!["Steve".to_string(), "Carol".to_string()]));
    assert_eq!(u.category1, Some("Books".to_string()));
    assert_eq!(u.is_deleted, None);
    let d = delete_request();
    assert_eq!(d.is_deleted, Some(true));
    assert_eq!(d.title, None);
}
