use tagbox::library::StoredFile;
use tagbox::sorting::sort_by_column;

fn file(id: &str, title: &str, original: &str, authors: &[&str], year: Option<i32>) -> StoredFile {
    StoredFile {
        id: id.to_string(),
        title: title.to_string(),
        original_filename: original.to_string(),
        path: format!("/{}", original),
        category1: String::new(),
        category2: None,
        category3: None,
        tags: vec![],
        authors: authors.iter().map(|a| a.to_string()).collect(),
        year,
        publisher: None,
        source: None,
        summary: None,
        created_at: String::new(),
        updated_at: String::new(),
        file_size_bytes: 0,
    }
}

fn ids(files: &[StoredFile]) -> Vec<&str> {
    files.iter().map(|f| f.id.as_str()).collect()
}

fn sample() -> Vec<StoredFile> {
    vec![
        file("1", "Zebra", "z.pdf", &["Bob"], Some(2001)),
        file("2", "", "apple.pdf", &["Ann", "Cy"], None),
        file("3", "Mango", "m.pdf", &["Ann"], Some(1999)),
        file("4", "Mango", "m2.pdf", &[], Some(2001)),
    ]
}

#[test]
fn sort_by_title() {
    let mut f = sample();
    sort_by_column(&mut f, 0, true);
    assert_eq!(ids(&f), vec!["3", "4", "1", "2"]);
    let mut g = sample();
    sort_by_column(&mut g, 0, false);
    assert_eq!(ids(&g), vec!["2", "1", "3", "4"]);
}

#[test]
fn sort_by_authors_and_year() {
    let mut f = sample();
    sort_by_column(&mut f, 1, true);
    assert_eq!(ids(&f), vec!["4", "3", "2", "1"]);
    let mut g = sample();
    sort_by_column(&mut g, 2, true);
    assert_eq!(ids(&g), vec!["2", "3", "1", "4"]);
    let mut h = sample();
    sort_by_column(&mut h, 2, false);
    assert_eq!(ids(&h), vec!["1", "4", "3", "2"]);
}

#[test]
fn other_columns_keep_the_order() {
    let mut f = sample();
    sort_by_column(&mut f, 7, true);
    assert_eq!(ids(&f), vec!["1", "2", "3", "4"]);
    let mut e: Vec<StoredFile> = Vec::new();
    sort_by_column(&mut e, 0, true);
    assert!(e.is_empty());
}

#[test]
fn matches_a_stable_sort() {
    let mut f = sample();
    sort_by_column(&mut f, 0, false);
    let mut g = sample();
    g.sort_by(|a, b| {
        let ka = if a.title.is_empty() { &a.original_filename } else { &a.title };
        let kb = if b.title.is_empty() { &b.original_filename } else { &b.title };
        kb.cmp(ka)
    });
    assert_eq!(ids(&f), ids(&g));
}

#[test]
fn sort_by_size() {
    let mut f = sample();
    f[0].file_size_bytes = 300;
    f[1].file_size_bytes = 100;
    f[2].file_size_bytes = 300;
    f[3].file_size_bytes = 50;
    let original = f.clone();
    sort_by_column(&mut f, 4, true);
    assert_eq!(ids(&f), vec!["4", "2", "1", "3"]);
    let mut g = original.clone();
    sort_by_column(&mut g, 4, false);
    assert_eq!(ids(&g), vec!["1", "3", "2", "4"]);
    let mut h = original;
    sort_by_column(&mut h, 3, true);
    assert_eq!(ids(&h), vec!["1", "2", "3", "4"]);
}
