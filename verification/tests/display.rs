use tagbox::display::{config_status_color, empty_preview, message_color, preview_details};
use tagbox::display::{
    config_status_text, database_status_text, error_status_text, file_count_text, file_menu_choice, file_row,
    header_text, list_lines, loading_status_text, log_level_text, search_status_text, selected_count_text,
    success_status_text, truncate_string, MenuOutcome, SearchStatus,
};
use tagbox::library::StoredFile;
use tagbox::session::AppEvent;
use tagbox::theme::Rgb;

fn entry(title: &str, authors: &[&str], tags: &[&str], year: Option<i32>, category: &str) -> StoredFile {
    StoredFile {
        id: "id".to_string(),
        title: title.to_string(),
        original_filename: "original.pdf".to_string(),
        path: "/x/original.pdf".to_string(),
        category1: category.to_string(),
        category2: None,
        category3: None,
        tags: tags.iter().map(|t| t.to_string()).collect(),
        authors: authors.iter().map(|a| a.to_string()).collect(),
        year,
        publisher: None,
        source: None,
        summary: None,
        created_at: String::new(),
        updated_at: String::new(),
        file_size_bytes: 0,
    }
}

fn row(cells: [&str; 5]) -> String {
    format!("{:<40} {:<25} {:<6} {:<20} {:<15}", cells[0], cells[1], cells[2], cells[3], cells[4])
}

#[test]
fn truncation() {
    assert_eq!(truncate_string("short", 10), "short");
    assert_eq!(truncate_string("exactly10!", 10), "exactly10!");
    assert_eq!(truncate_string("a much longer text", 10), "a much ...");
    assert_eq!(truncate_string("中文字符很多很多", 5), "中文...");
}

#[test]
fn header_and_rows() {
    assert_eq!(header_text(), row(["Title", "Authors", "Year", "Tags", "Category"]));
    let f = entry("Rust Book", &["Steve", "Carol"], &["rust"], Some(2019), "Tech");
    assert_eq!(file_row(&f), row(["Rust Book", "Steve, Carol", "2019", "rust", "Tech"]));
    let g = entry("", &[], &["a", "b", "c"], None, "");
    assert_eq!(file_row(&g), row(["original.pdf", "Unknown", "----", "3 tags", "Uncategorized"]));
    let h = entry("t", &[], &[], Some(-5), "A category that is long");
    assert_eq!(file_row(&h), row(["t", "Unknown", "-5", "No tags", "A category t..."]));
}

#[test]
fn list_of_files() {
    let empty = list_lines(&Vec::new());
    assert_eq!(empty.len(), 3);
    assert_eq!(empty[1], "@-");
    assert_eq!(empty[2], "No files found. Try a different search or import some files.");
    let files = vec![entry("A", &[], &[], None, "X"), entry("B", &[], &[], None, "Y")];
    let lines = list_lines(&files);
    assert_eq!(lines.len(), 4);
    assert_eq!(lines[0], header_text());
    assert_eq!(lines[2], file_row(&files[0]));
    assert_eq!(lines[3], file_row(&files[1]));
}

#[test]
fn context_menu_choices() {
    match file_menu_choice(3, 0) {
        Some(MenuOutcome::Send(AppEvent::OpenFile(s))) => assert_eq!(s, "index:3"),
        _ => panic!("open expected"),
    }
    match file_menu_choice(12, 2) {
        Some(MenuOutcome::Send(AppEvent::CopyFilePath(s))) => assert_eq!(s, "index:12"),
        _ => panic!("copy expected"),
    }
    match file_menu_choice(0, 4) {
        Some(MenuOutcome::Confirm(q, AppEvent::DeleteFile(s))) => {
            assert_eq!(q, "Remove this file from TagBox?");
            assert_eq!(s, "index:0");
        },
        _ => panic!("confirmation expected"),
    }
    assert!(file_menu_choice(0, 5).is_none());
}

#[test]
fn status_bar_fields() {
    assert_eq!(file_count_text(10, None), "Files: 10");
    assert_eq!(file_count_text(10, Some(4)), "Files: 4/10");
    assert_eq!(selected_count_text(2), "Selected: 2");
    assert_eq!(
        config_status_text(Some("/etc/tagbox/custom.toml")),
        ("Config: custom.toml".to_string(), "Configuration: /etc/tagbox/custom.toml".to_string())
    );
    assert_eq!(
        config_status_text(None),
        ("Config: None".to_string(), "No configuration file loaded".to_string())
    );
    let (t, c) = log_level_text("warn");
    assert_eq!(t, "Log: warn");
    assert_eq!(c, Rgb { r: 255, g: 193, b: 7 });
    assert_eq!(log_level_text("verbose").1, Rgb { r: 0, g: 0, b: 0 });
    assert_eq!(database_status_text(true).0, "DB: Connected");
    assert_eq!(database_status_text(false).1, Rgb { r: 200, g: 100, b: 100 });
    assert_eq!(search_status_text(&SearchStatus::Results(7)).0, "Search: 7 results");
    assert_eq!(
        search_status_text(&SearchStatus::Error("boom".to_string())),
        ("Search: Error - boom".to_string(), Rgb { r: 220, g: 53, b: 69 })
    );
    assert_eq!(search_status_text(&SearchStatus::NoResults).0, "Search: No results");
    assert_eq!(loading_status_text(true, None), "Loading...");
    assert_eq!(loading_status_text(true, Some("Importing")), "Importing");
    assert_eq!(loading_status_text(false, Some("Importing")), "Ready");
    assert_eq!(error_status_text("x"), "Error: x");
    assert_eq!(success_status_text("saved"), "✓ saved");
}

#[test]
fn preview_panel() {
    let mut f = entry("", &["Ann", "Bob"], &[], Some(1999), "X");
    f.publisher = Some("ACME".to_string());
    let d = preview_details(&f);
    assert_eq!(d.title, "original.pdf");
    assert_eq!(d.path, "/x/original.pdf");
    assert_eq!(d.authors, "Ann, Bob");
    assert_eq!(d.year, "1999");
    assert_eq!(d.publisher, "ACME");
    assert_eq!(d.tags, "No tags");
    assert_eq!(d.summary, "No summary available");
    let g = entry("T", &[], &["a", "b"], None, "X");
    let e = preview_details(&g);
    assert_eq!((e.year.as_str(), e.publisher.as_str(), e.tags.as_str()), ("N/A", "N/A", "a, b"));
    assert_eq!(empty_preview().title, "No file selected");
    assert_eq!(message_color(true), Rgb { r: 220, g: 53, b: 69 });
    assert_eq!(message_color(false), Rgb { r: 25, g: 135, b: 84 });
    assert_eq!(config_status_color(true), Rgb { r: 100, g: 200, b: 100 });
    assert_eq!(config_status_color(false), Rgb { r: 200, g: 100, b: 100 });
}
