use tagbox::download::{download_file_name, download_steps, validate_url, DownloadStep, UrlError};
use tagbox::pdfmeta::{
    extract_fallback, extract_pdf_direct, PdfDocument, PdfInfo, extract_pdf_string_value, find_text_title, keyword_tags, parse_pdf_date_year, snip_text,
    PdfValue, PdfValueError,
};

#[test]
fn test_validate_url() {
    assert!(validate_url("https://example.com/file.pdf").is_ok());
    assert!(validate_url("http://example.com/file.pdf").is_ok());
    assert!(validate_url("ftp://example.com/file.pdf").is_err());
    assert!(validate_url("not a url").is_err());
}

#[test]
fn url_errors_tell_why() {
    assert_eq!(validate_url("ftp://example.com/x"), Err(UrlError::UnsupportedScheme));
    assert_eq!(validate_url("not a url"), Err(UrlError::Invalid));
    assert_eq!(UrlError::UnsupportedScheme.message(), "Only HTTP/HTTPS URLs are supported");
}

#[test]
fn download_names() {
    assert_eq!(
        download_file_name("https://example.com/docs/file.pdf", 1700000000),
        Ok("1700000000_file.pdf".to_string())
    );
    assert_eq!(
        download_file_name("https://example.com/docs/", 5),
        Ok("5_download".to_string())
    );
    assert_eq!(download_file_name("https://example.com", 5), Ok("5_download".to_string()));
    assert_eq!(download_file_name("ftp://example.com/a", 5), Err(UrlError::UnsupportedScheme));
}

#[test]
fn snipping_text() {
    assert_eq!(snip_text("hello", 10), "hello");
    assert_eq!(snip_text("hello", 3), "hel");
    assert_eq!(snip_text("héllo", 3), "hé");
    assert_eq!(snip_text("", 0), "");
}

#[test]
fn pdf_years() {
    assert_eq!(parse_pdf_date_year("D:20230115120000Z"), Some(2023));
    assert_eq!(parse_pdf_date_year("1999-01-01"), Some(1999));
    assert_eq!(parse_pdf_date_year("D:20"), None);
    assert_eq!(parse_pdf_date_year("abc"), None);
    assert_eq!(parse_pdf_date_year("D:xx230101"), None);
    assert_eq!(parse_pdf_date_year("+123"), Some(123));
}

#[test]
fn pdf_string_values() {
    assert_eq!(
        extract_pdf_string_value(&PdfValue::Text("Über".as_bytes().to_vec())),
        Ok("Über".to_string())
    );
    assert_eq!(
        extract_pdf_string_value(&PdfValue::Text(vec![0x44, 0xE9, 0x6A, 0xE0])),
        Ok("Déjà".to_string())
    );
    assert_eq!(
        extract_pdf_string_value(&PdfValue::Name(b"Title".to_vec())),
        Ok("Title".to_string())
    );
    assert_eq!(
        extract_pdf_string_value(&PdfValue::Name(vec![0xFF])),
        Err(PdfValueError::InvalidUtf8)
    );
    assert_eq!(extract_pdf_string_value(&PdfValue::Other), Err(PdfValueError::NotAString));
}

#[test]
fn pdf_keywords() {
    assert_eq!(
        keyword_tags("rust; systems,  programming  book"),
        vec!["rust", "systems", "programming", "book"]
    );
    assert_eq!(keyword_tags(" ,; "), Vec::<String>::new());
}

#[test]
fn titles_from_text() {
    let text = "Copyright 2020 ACME\nJOHN SMITH\nuser@example.com\nA Study of Things\nmore";
    assert_eq!(find_text_title(text), Some("A Study of Things".to_string()));
    assert_eq!(find_text_title("Short\n"), Some("Short".to_string()));
    assert_eq!(find_text_title("\nlater line here"), Some("later line here".to_string()));
    assert_eq!(find_text_title(""), None);
    assert_eq!(find_text_title("  \nGRAND TITLE"), None);
}

fn text(s: &str) -> Option<PdfValue> {
    Some(PdfValue::Text(s.as_bytes().to_vec()))
}

#[test]
fn direct_pdf_reading() {
    let doc = PdfDocument {
        info: Some(PdfInfo {
            title: text("My Title"),
            author: text("Jane Roe"),
            subject: text("About things"),
            keywords: text("rust, verification"),
            creator: text(""),
            producer: Some(PdfValue::Name(b"pdfTeX".to_vec())),
            creation_date: text("D:20230115120000"),
            mod_date: None,
        }),
        page_count: 4,
        page_texts: vec![Some("Hello".to_string()), None, Some("World".to_string())],
    };
    let r = extract_pdf_direct(&doc);
    assert_eq!(r.metadata.title, "My Title");
    assert_eq!(r.metadata.authors, vec!["Jane Roe".to_string()]);
    assert_eq!(r.metadata.year, Some(2023));
    assert_eq!(r.metadata.summary.as_deref(), Some("About things"));
    assert_eq!(r.metadata.tags, vec!["rust".to_string(), "verification".to_string()]);
    assert_eq!(r.metadata.category1, "未分类");
    assert_eq!(
        r.metadata.additional_info,
        vec![
            ("producer".to_string(), "pdfTeX".to_string()),
            ("creation_date".to_string(), "D:20230115120000".to_string()),
        ]
    );
    assert_eq!(r.page_count, 4);
    assert_eq!(r.text, "Hello\nWorld\n");
    assert!(r.has_text);
    assert_eq!(r.text_length, 12);
    assert_eq!(r.text_preview, "Hello\nWorld\n");
}

#[test]
fn direct_pdf_title_from_text_and_long_preview() {
    let long = format!("A Paper About Verification\n{}", "x".repeat(300));
    let doc = PdfDocument { info: None, page_count: 1, page_texts: vec![Some(long.clone())] };
    let r = extract_pdf_direct(&doc);
    assert_eq!(r.metadata.title, "A Paper About Verification");
    assert!(r.metadata.authors.is_empty());
    assert_eq!(r.metadata.year, None);
    assert_eq!(r.text_preview, format!("{}...", &format!("{}\n", long)[..200]));
    let blank = PdfDocument { info: None, page_count: 0, page_texts: vec![Some("  \n ".to_string())] };
    let b = extract_pdf_direct(&blank);
    assert!(!b.has_text);
    assert_eq!(b.metadata.title, "");
}

#[test]
fn fallback_reader_results() {
    let r = extract_fallback(None);
    assert!(!r.succeeded);
    assert_eq!(r.text, "");
    assert_eq!(r.title, "");
    assert_eq!(r.metadata.category1, "未分类");
    let t = extract_fallback(Some("  A Found Title  \nbody text".to_string()));
    assert!(t.succeeded);
    assert_eq!(t.title, "A Found Title");
    assert_eq!(t.metadata.title, "A Found Title");
    assert_eq!(t.text, "  A Found Title  \nbody text");
    let e = extract_fallback(Some(String::new()));
    assert!(e.succeeded);
    assert_eq!(e.title, "");
}

#[test]
fn download_steps_of_accepted_and_refused_urls() {
    assert_eq!(
        download_steps("https://example.com/a/b.pdf", 7),
        Ok(vec![
            DownloadStep::CreateFolder,
            DownloadStep::Fetch("https://example.com/a/b.pdf".to_string()),
            DownloadStep::Save("7_b.pdf".to_string()),
        ])
    );
    assert_eq!(download_steps("ftp://example.com/a", 7), Err(UrlError::UnsupportedScheme));
    assert_eq!(download_steps("not a url", 7), Err(UrlError::Invalid));
}
