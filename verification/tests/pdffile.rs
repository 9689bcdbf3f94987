use lopdf::{Dictionary, Document, Object, Stream};
use tagbox::paths::is_pdf_path;
use tagbox::pdffile::read_pdf;
use tagbox::pdfmeta::{try_extract_pdf_direct, PdfValue};

fn small_pdf(info_as_reference: bool) -> Vec<u8> {
    let mut doc = Document::with_version("1.5");
    let mut info = Dictionary::new();
    info.set("Title", Object::string_literal("Hello PDF"));
    info.set("Producer", Object::Name(b"gen".to_vec()));
    info.set("CreationDate", Object::string_literal("D:20200101000000"));
    let info_id = doc.add_object(info.clone());
    let mut pages = Dictionary::new();
    pages.set("Type", Object::Name(b"Pages".to_vec()));
    pages.set("Kids", Object::Array(vec![]));
    pages.set("Count", Object::Integer(0));
    let pages_id = doc.add_object(pages);
    let mut catalog = Dictionary::new();
    catalog.set("Type", Object::Name(b"Catalog".to_vec()));
    catalog.set("Pages", Object::Reference(pages_id));
    let catalog_id = doc.add_object(catalog);
    doc.trailer.set("Root", Object::Reference(catalog_id));
    if info_as_reference {
        doc.trailer.set("Info", Object::Reference(info_id));
    } else {
        doc.trailer.set("Info", Object::Dictionary(info));
    }
    let mut bytes = Vec::new();
    doc.save_to(&mut bytes).unwrap();
    bytes
}

#[test]
fn reading_a_small_pdf() {
    let d = read_pdf(&small_pdf(true)).unwrap();
    assert_eq!(d.page_count, 0);
    assert!(d.page_texts.is_empty());
    let info = d.info.clone().unwrap();
    assert!(matches!(&info.title, Some(PdfValue::Text(b)) if b.as_slice() == b"Hello PDF"));
    assert!(matches!(&info.producer, Some(PdfValue::Name(n)) if n.as_slice() == b"gen"));
    assert!(info.author.is_none());
    let r = try_extract_pdf_direct(&d).unwrap();
    assert_eq!(r.metadata.title, "Hello PDF");
    assert_eq!(r.metadata.year, Some(2020));
    assert!(!r.has_text);
}

#[test]
fn info_must_be_a_reference() {
    let d = read_pdf(&small_pdf(false)).unwrap();
    assert!(d.info.is_none());
}

#[test]
fn bytes_that_are_no_pdf() {
    assert!(read_pdf(&b"plain text".to_vec()).is_err());
}

#[test]
fn pdf_paths() {
    assert!(is_pdf_path("/a/b/Report.PDF"));
    assert!(is_pdf_path("x.pdf"));
    assert!(!is_pdf_path("x.pdfx"));
    assert!(!is_pdf_path("pdf"));
    assert!(!is_pdf_path("/a/.pdf"));
}

fn pdf_with_pages(count: usize) -> Vec<u8> {
    let mut doc = Document::with_version("1.5");
    let pages_id = doc.new_object_id();
    let mut font = Dictionary::new();
    font.set("Type", Object::Name(b"Font".to_vec()));
    font.set("Subtype", Object::Name(b"Type1".to_vec()));
    font.set("BaseFont", Object::Name(b"Helvetica".to_vec()));
    font.set("Encoding", Object::Name(b"WinAnsiEncoding".to_vec()));
    let font_id = doc.add_object(font);
    let mut fonts = Dictionary::new();
    fonts.set("F1", Object::Reference(font_id));
    let mut resources = Dictionary::new();
    resources.set("Font", Object::Dictionary(fonts));
    let resources_id = doc.add_object(resources);
    let mut kids = Vec::new();
    for n in 1..=count {
        let text = format!("BT /F1 12 Tf 72 712 Td (Page {}) Tj ET", n);
        let content_id = doc.add_object(Stream::new(Dictionary::new(), text.into_bytes()));
        let mut page = Dictionary::new();
        page.set("Type", Object::Name(b"Page".to_vec()));
        page.set("Parent", Object::Reference(pages_id));
        page.set("Contents", Object::Reference(content_id));
        page.set("Resources", Object::Reference(resources_id));
        page.set(
            "MediaBox",
            Object::Array(vec![Object::Integer(0), Object::Integer(0), Object::Integer(612), Object::Integer(792)]),
        );
        kids.push(Object::Reference(doc.add_object(page)));
    }
    let mut pages = Dictionary::new();
    pages.set("Type", Object::Name(b"Pages".to_vec()));
    pages.set("Kids", Object::Array(kids));
    pages.set("Count", Object::Integer(count as i64));
    doc.objects.insert(pages_id, Object::Dictionary(pages));
    let mut catalog = Dictionary::new();
    catalog.set("Type", Object::Name(b"Catalog".to_vec()));
    catalog.set("Pages", Object::Reference(pages_id));
    let catalog_id = doc.add_object(catalog);
    doc.trailer.set("Root", Object::Reference(catalog_id));
    let mut bytes = Vec::new();
    doc.save_to(&mut bytes).unwrap();
    bytes
}

#[test]
fn first_three_pages_in_order() {
    let d = read_pdf(&pdf_with_pages(4)).unwrap();
    assert_eq!(d.page_count, 4);
    assert_eq!(d.page_texts.len(), 3);
    for (i, text) in d.page_texts.iter().enumerate() {
        let text = text.as_deref().expect("the page has text");
        assert!(text.contains(&format!("Page {}", i + 1)), "page {} reads {:?}", i + 1, text);
    }
    assert!(d.info.is_none());
    let two = read_pdf(&pdf_with_pages(2)).unwrap();
    assert_eq!(two.page_count, 2);
    assert_eq!(two.page_texts.len(), 2);
    assert!(two.page_texts[1].as_deref().unwrap().contains("Page 2"));
}
