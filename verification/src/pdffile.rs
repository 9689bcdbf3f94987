//! Opening a PDF file's bytes with lopdf and reading out what the metadata
//! reader needs: the information entries, the number of pages and the
//! text of the first pages.
//!
//! lopdf is used without its default features, so it parses a document on
//! the calling thread, in the order of the cross-reference entries, and
//! walks it deterministically: everything read from a document is a
//! function of the bytes it was parsed from and of where in the document it
//! was read. A parsed document carries those bytes
//! as a ghost value, and each dictionary or object reached from it carries
//! the bytes and its place: the trailer, an entry of a dictionary under a
//! key, or an object by number and generation.

use vstd::prelude::*;

use lopdf::{Dictionary, Document, Object};

use crate::library::opt_view;
use crate::pdfmeta::{PdfDocument, PdfInfo, PdfValue};

verus! {

/// A PDF document parsed by lopdf.
#[verifier::external_type_specification]
#[verifier::external_body]
pub struct ExDocument(lopdf::Document);

/// A PDF dictionary as lopdf holds it.
#[verifier::external_type_specification]
#[verifier::external_body]
pub struct ExDictionary(lopdf::Dictionary);

/// A PDF object as lopdf holds it.
#[verifier::external_type_specification]
#[verifier::external_body]
pub struct ExObject(lopdf::Object);

// ---------------------------------------------------------------------------
// Places in a document
// ---------------------------------------------------------------------------

/// Where a dictionary or an object was read in a document: the trailer,
/// the entry of the dictionary at a place under a key, or the object with
/// a number and a generation.
pub enum PdfPlace {
    Trailer,
    Entry(Box<PdfPlace>, Seq<char>),
    Object(u32, u16),
}

/// A document parsed from `source`.
pub struct LoadedPdf {
    doc: Document,
    source: Ghost<Seq<u8>>,
}

/// A dictionary of the document parsed from `source`, read at `place`.
pub struct PdfDict<'a> {
    dict: &'a Dictionary,
    source: Ghost<Seq<u8>>,
    place: Ghost<PdfPlace>,
}

/// An object of the document parsed from `source`, read at `place`.
pub struct PdfObject<'a> {
    obj: &'a Object,
    source: Ghost<Seq<u8>>,
    place: Ghost<PdfPlace>,
}

/// The value of an information entry: the bytes of a string or of a name,
/// or neither.
pub enum PdfValueView {
    Text(Seq<u8>),
    Name(Seq<u8>),
    Other,
}

/// The value of a `PdfValue`.
pub open spec fn value_view(v: PdfValue) -> PdfValueView {
    match v {
        PdfValue::Text(b) => PdfValueView::Text(b@),
        PdfValue::Name(b) => PdfValueView::Name(b@),
        PdfValue::Other => PdfValueView::Other,
    }
}

/// The value of an optional `PdfValue`.
pub open spec fn opt_value_view(v: Option<PdfValue>) -> Option<PdfValueView> {
    match v {
        Some(x) => Some(value_view(x)),
        None => None,
    }
}

// ---------------------------------------------------------------------------
// lopdf
// ---------------------------------------------------------------------------

/// What `lopdf::Document::load_mem` says of bytes it cannot parse (its
/// error's message); nothing for bytes it parses.
pub uninterp spec fn pdf_load_error(bytes: Seq<u8>) -> Option<Seq<char>>;

/// The number of pages `lopdf::Document::get_pages` finds in the document
/// parsed from the bytes.
pub uninterp spec fn pdf_pages(bytes: Seq<u8>) -> usize;

/// What `lopdf::Document::extract_text` gives for one page (numbered from
/// 1) of the document parsed from the bytes: its text, or nothing when it
/// fails.
pub uninterp spec fn pdf_page_text_of(bytes: Seq<u8>, page: u32) -> Option<Seq<char>>;

/// Whether `lopdf::Dictionary::get` finds an entry under the key in the
/// dictionary at a place of the document parsed from the bytes.
pub uninterp spec fn pdf_has_entry(bytes: Seq<u8>, place: PdfPlace, key: Seq<char>) -> bool;

/// What `lopdf::Object::as_reference` gives for the object at a place: its
/// object number and generation when it is a reference.
pub uninterp spec fn pdf_reference_at(bytes: Seq<u8>, place: PdfPlace) -> Option<(u32, u16)>;

/// Whether `lopdf::Document::get_object` finds the object with a number
/// and generation in the document parsed from the bytes.
pub uninterp spec fn pdf_has_object(bytes: Seq<u8>, number: u32, generation: u16) -> bool;

/// Whether `lopdf::Object::as_dict` finds a dictionary in the object at a
/// place.
pub uninterp spec fn pdf_is_dict(bytes: Seq<u8>, place: PdfPlace) -> bool;

/// The kind and bytes of the `lopdf::Object` at a place: a string, a name,
/// or another object.
pub uninterp spec fn pdf_value_at(bytes: Seq<u8>, place: PdfPlace) -> PdfValueView;

/// `lopdf::Document::load_mem`: parses the bytes of a PDF file, or gives
/// lopdf's error message. Without lopdf's `rayon` feature the objects are
/// loaded one after another in cross-reference order, so whether it
/// parses, the message and the document depend on the bytes alone; the
/// parsed document remembers the bytes.
#[verifier::external_body]
fn pdf_load_mem(bytes: &Vec<u8>) -> (r: Result<LoadedPdf, String>)
    ensures
        match r {
            Ok(d) => pdf_load_error(bytes@) is None && d.source@ == bytes@,
            Err(e) => pdf_load_error(bytes@) == Some(e@),
        },
{
    match Document::load_mem(bytes) {
        Ok(doc) => Ok(LoadedPdf { doc, source: Ghost(bytes@) }),
        Err(e) => Err(e.to_string()),
    }
}

/// `lopdf::Document::get_pages`, as the number of pages found; it depends
/// on the bytes the document was parsed from alone.
#[verifier::external_body]
fn pdf_page_count(pdf: &LoadedPdf) -> (r: usize)
    ensures
        r == pdf_pages(pdf.source@),
{
    pdf.doc.get_pages().len()
}

/// `lopdf::Document::extract_text` for one page (numbered from 1): its
/// text, or nothing when it cannot be extracted; it depends on the bytes
/// the document was parsed from and the page alone.
#[verifier::external_body]
fn pdf_page_text(pdf: &LoadedPdf, page: u32) -> (r: Option<String>)
    ensures
        opt_view(r) == pdf_page_text_of(pdf.source@, page),
{
    pdf.doc.extract_text(&[page]).ok()
}

/// The document's trailer dictionary (the `trailer` field of
/// `lopdf::Document`).
#[verifier::external_body]
fn pdf_trailer<'a>(pdf: &'a LoadedPdf) -> (r: PdfDict<'a>)
    ensures
        r.source@ == pdf.source@,
        r.place@ == PdfPlace::Trailer,
{
    PdfDict { dict: &pdf.doc.trailer, source: Ghost(pdf.source@), place: Ghost(PdfPlace::Trailer) }
}

/// `lopdf::Dictionary::get`: the entry under a key, if any; whether there
/// is one depends on the dictionary's place in the document alone.
#[verifier::external_body]
fn pdf_dict_get<'a>(dict: &PdfDict<'a>, key: &str) -> (r: Option<PdfObject<'a>>)
    ensures
        r is Some <==> pdf_has_entry(dict.source@, dict.place@, key@),
        r matches Some(o) ==> o.source@ == dict.source@ && o.place@ == PdfPlace::Entry(Box::new(dict.place@), key@),
{
    match dict.dict.get(key.as_bytes()) {
        Ok(obj) => Some(
            PdfObject { obj, source: Ghost(dict.source@), place: Ghost(PdfPlace::Entry(Box::new(dict.place@), key@)) },
        ),
        Err(_) => None,
    }
}

/// `lopdf::Object::as_reference`: the object number and generation when
/// the object is a reference.
#[verifier::external_body]
fn pdf_as_reference(obj: &PdfObject) -> (r: Option<(u32, u16)>)
    ensures
        r == pdf_reference_at(obj.source@, obj.place@),
{
    obj.obj.as_reference().ok()
}

/// `lopdf::Document::get_object`: the object with a number and generation
/// (references followed), if the document has it.
#[verifier::external_body]
fn pdf_get_object<'a>(pdf: &'a LoadedPdf, number: u32, generation: u16) -> (r: Option<PdfObject<'a>>)
    ensures
        r is Some <==> pdf_has_object(pdf.source@, number, generation),
        r matches Some(o) ==> o.source@ == pdf.source@ && o.place@ == PdfPlace::Object(number, generation),
{
    match pdf.doc.get_object((number, generation)) {
        Ok(obj) => Some(PdfObject { obj, source: Ghost(pdf.source@), place: Ghost(PdfPlace::Object(number, generation)) }),
        Err(_) => None,
    }
}

/// `lopdf::Object::as_dict`: the object as a dictionary, when it is one; it
/// keeps the object's place.
#[verifier::external_body]
fn pdf_as_dict<'a>(obj: &PdfObject<'a>) -> (r: Option<PdfDict<'a>>)
    ensures
        r is Some <==> pdf_is_dict(obj.source@, obj.place@),
        r matches Some(d) ==> d.source@ == obj.source@ && d.place@ == obj.place@,
{
    match obj.obj.as_dict() {
        Ok(dict) => Some(PdfDict { dict, source: Ghost(obj.source@), place: Ghost(obj.place@) }),
        Err(_) => None,
    }
}

/// A lopdf object as an information entry's value: the bytes of a string
/// (`Object::String`) or of a name (`Object::Name`), or neither.
#[verifier::external_body]
fn pdf_value(obj: &PdfObject) -> (r: PdfValue)
    ensures
        value_view(r) == pdf_value_at(obj.source@, obj.place@),
{
    match obj.obj {
        Object::String(bytes, _) => PdfValue::Text(bytes.clone()),
        Object::Name(name) => PdfValue::Name(name.clone()),
        _ => PdfValue::Other,
    }
}

// ---------------------------------------------------------------------------
// What is read
// ---------------------------------------------------------------------------

/// The information entries of a PDF, as values.
pub struct PdfInfoView {
    pub title: Option<PdfValueView>,
    pub author: Option<PdfValueView>,
    pub subject: Option<PdfValueView>,
    pub keywords: Option<PdfValueView>,
    pub creator: Option<PdfValueView>,
    pub producer: Option<PdfValueView>,
    pub creation_date: Option<PdfValueView>,
    pub mod_date: Option<PdfValueView>,
}

/// The value of optional information entries.
pub open spec fn info_view(i: Option<PdfInfo>) -> Option<PdfInfoView> {
    match i {
        Some(x) => Some(
            PdfInfoView {
                title: opt_value_view(x.title),
                author: opt_value_view(x.author),
                subject: opt_value_view(x.subject),
                keywords: opt_value_view(x.keywords),
                creator: opt_value_view(x.creator),
                producer: opt_value_view(x.producer),
                creation_date: opt_value_view(x.creation_date),
                mod_date: opt_value_view(x.mod_date),
            },
        ),
        None => None,
    }
}

/// The value under a key of the dictionary at a place, if it has the key.
pub open spec fn entry_at(bytes: Seq<u8>, place: PdfPlace, key: Seq<char>) -> Option<PdfValueView> {
    if pdf_has_entry(bytes, place, key) {
        Some(pdf_value_at(bytes, PdfPlace::Entry(Box::new(place), key)))
    } else {
        None
    }
}

/// The information entries of the dictionary at a place.
pub open spec fn info_entries(bytes: Seq<u8>, place: PdfPlace) -> PdfInfoView {
    PdfInfoView {
        title: entry_at(bytes, place, "Title"@),
        author: entry_at(bytes, place, "Author"@),
        subject: entry_at(bytes, place, "Subject"@),
        keywords: entry_at(bytes, place, "Keywords"@),
        creator: entry_at(bytes, place, "Creator"@),
        producer: entry_at(bytes, place, "Producer"@),
        creation_date: entry_at(bytes, place, "CreationDate"@),
        mod_date: entry_at(bytes, place, "ModDate"@),
    }
}

/// The information dictionary of the PDF with these bytes: the trailer's
/// `Info` entry must be a reference to an object of the document that is
/// a dictionary; its entries are then read.
pub open spec fn pdf_info_of(bytes: Seq<u8>) -> Option<PdfInfoView> {
    if !pdf_has_entry(bytes, PdfPlace::Trailer, "Info"@) {
        None
    } else {
        match pdf_reference_at(bytes, PdfPlace::Entry(Box::new(PdfPlace::Trailer), "Info"@)) {
            None => None,
            Some((number, generation)) => if !pdf_has_object(bytes, number, generation) {
                None
            } else if !pdf_is_dict(bytes, PdfPlace::Object(number, generation)) {
                None
            } else {
                Some(info_entries(bytes, PdfPlace::Object(number, generation)))
            },
        }
    }
}

/// How many pages' texts are read: the number of pages, at most three.
pub open spec fn pages_read(pages: usize) -> int {
    if pages < 3 {
        pages as int
    } else {
        3
    }
}

/// The value under a key of a dictionary, if any.
fn entry_value(dict: &PdfDict, key: &str) -> (r: Option<PdfValue>)
    ensures
        opt_value_view(r) == entry_at(dict.source@, dict.place@, key@),
{
    match pdf_dict_get(dict, key) {
        Some(o) => Some(pdf_value(&o)),
        None => None,
    }
}

/// The information dictionary's entries: the trailer's "Info" entry must
/// be a reference to a dictionary.
fn info_of(pdf: &LoadedPdf) -> (r: Option<PdfInfo>)
    ensures
        info_view(r) == pdf_info_of(pdf.source@),
{
    let trailer = pdf_trailer(pdf);
    let entry = match pdf_dict_get(&trailer, "Info") {
        Some(e) => e,
        None => return None,
    };
    let (number, generation) = match pdf_as_reference(&entry) {
        Some(id) => id,
        None => return None,
    };
    let obj = match pdf_get_object(pdf, number, generation) {
        Some(o) => o,
        None => return None,
    };
    let dict = match pdf_as_dict(&obj) {
        Some(d) => d,
        None => return None,
    };
    Some(PdfInfo {
        title: entry_value(&dict, "Title"),
        author: entry_value(&dict, "Author"),
        subject: entry_value(&dict, "Subject"),
        keywords: entry_value(&dict, "Keywords"),
        creator: entry_value(&dict, "Creator"),
        producer: entry_value(&dict, "Producer"),
        creation_date: entry_value(&dict, "CreationDate"),
        mod_date: entry_value(&dict, "ModDate"),
    })
}

/// Parses the bytes of a PDF file and reads its information entries, its
/// number of pages and the text of its first pages (at most three, one
/// entry per page in order from page 1, `None` where a page's text cannot
/// be extracted); or lopdf's error message when the bytes cannot be
/// parsed.
pub fn read_pdf(bytes: &Vec<u8>) -> (r: Result<PdfDocument, String>)
    ensures
        r is Ok <==> pdf_load_error(bytes@) is None,
        r matches Err(e) ==> pdf_load_error(bytes@) == Some(e@),
        r matches Ok(d) ==> {
            &&& d.page_count == pdf_pages(bytes@)
            &&& d.page_texts@.len() == pages_read(d.page_count)
            &&& forall|i: int| 0 <= i < d.page_texts@.len()
                ==> opt_view(#[trigger] d.page_texts@[i]) == pdf_page_text_of(bytes@, (i + 1) as u32)
            &&& info_view(d.info) == pdf_info_of(bytes@)
        },
{
    let pdf = match pdf_load_mem(bytes) {
        Ok(d) => d,
        Err(e) => return Err(e),
    };
    let page_count = pdf_page_count(&pdf);
    let n: usize = if page_count < 3 {
        page_count
    } else {
        3
    };
    let mut page_texts: Vec<Option<String>> = Vec::new();
    let mut i: usize = 0;
    while i < n
        invariant
            i <= n,
            n <= 3,
            page_texts@.len() == i,
            forall|k: int| 0 <= k < i ==> opt_view(#[trigger] page_texts@[k]) == pdf_page_text_of(pdf.source@, (k + 1) as u32),
        decreases n - i,
    {
        let page: u32 = (i + 1) as u32;
        page_texts.push(pdf_page_text(&pdf, page));
        i += 1;
    }
    let info = info_of(&pdf);
    Ok(PdfDocument { info, page_count, page_texts })
}

} // verus!
