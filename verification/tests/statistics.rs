use tagbox::library::StoredFile;
use tagbox::statistics::{category_report, load_statistics, recommendations, sort_by_count};

fn file(path: &str, c1: &str, c2: Option<&str>, authors: &[&str], year: Option<i32>) -> StoredFile {
    StoredFile {
        id: path.to_string(),
        title: "t".to_string(),
        original_filename: "t".to_string(),
        path: path.to_string(),
        category1: c1.to_string(),
        category2: c2.map(|s| s.to_string()),
        category3: None,
        tags: vec![],
        authors: authors.iter().map(|a| a.to_string()).collect(),
        year,
        publisher: None,
        source: None,
        summary: None,
        created_at: String::new(),
        updated_at: String::new(),
        file_size_bytes: 0,
    }
}

#[test]
fn statistics_of_a_small_library() {
    let files = vec![
        file("/a/x.PDF", "Tech", Some("Rust"), &["Ann", "Bob"], Some(2020)),
        file("/a/y.epub", "Tech", None, &["Ann"], Some(2021)),
        file("/a/README", "Books", None, &[], None),
    ];
    let modified = vec![Some(100), Some(10), None];
    let s = load_statistics(&files, &modified, 50);
    assert_eq!(s.total_files, 3);
    assert_eq!(s.total_size, 0);
    assert_eq!(s.total_categories, 3);
    assert_eq!(s.total_authors, 2);
    assert_eq!(s.recent_imports, 1);
    assert_eq!(s.category_distribution, vec![("Tech".to_string(), 2), ("Books".to_string(), 1)]);
    assert_eq!(
        s.filetype_distribution,
        vec![("pdf".to_string(), 1), ("epub".to_string(), 1), ("unknown".to_string(), 1)]
    );
    assert_eq!(s.author_distribution.len(), 2);
    assert_eq!(s.author_distribution[0].name, "Ann");
    assert_eq!(s.author_distribution[0].file_count, 2);
    assert_eq!(s.author_distribution[0].categories, vec!["Tech".to_string()]);
    assert_eq!(s.author_distribution[0].years, vec![2020, 2021]);
    assert_eq!(s.author_distribution[1].name, "Bob");
    assert_eq!(s.author_distribution[1].years, vec![2020]);
}

#[test]
fn reports() {
    let v = vec![("A".to_string(), 1), ("B".to_string(), 5), ("C".to_string(), 1), ("D".to_string(), 3)];
    let sorted = sort_by_count(&v);
    assert_eq!(
        sorted,
        vec![("B".to_string(), 5), ("D".to_string(), 3), ("A".to_string(), 1), ("C".to_string(), 1)]
    );
    let report = category_report(&sorted[..1].to_vec());
    assert_eq!(
        report,
        "Category Distribution Analysis\n==============================\n\n📁 B\n   Files: 5\n   Size: 0 B\n   Recent: 0\n\n"
    );
    assert_eq!(recommendations(0), "- No recent imports detected\n- Consider importing new content\n");
    assert_eq!(recommendations(51), "- High import activity detected\n- Consider organizing new content into categories\n");
    assert_eq!(recommendations(50), "- Moderate import activity\n- Collection is actively maintained\n");
}
