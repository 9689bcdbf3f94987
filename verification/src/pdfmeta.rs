//! Reading a PDF's document information: the values of the info entries as
//! text, the year of a PDF date, keywords as tags, a title found in the
//! first lines of the text, and clipped previews of long text.

use vstd::prelude::*;
use vstd::utf8::{decode_utf8, encode_utf8, is_char_boundary};

use crate::library::opt_view;
use crate::text::{
    chars_of, contains_chars, has_prefix, has_sub, is_whitespace, is_ws, lines, lines_of, list_items,
    lowercase, parse_i32, parse_i32_spec, push_char, split_list, starts_with_chars, string_of,
    to_lowercase, trim, trim_chars,
};

verus! {

broadcast use {vstd::string::group_string_axioms, vstd::utf8::group_utf8_lib};

// ---------------------------------------------------------------------------
// Clipping text
// ---------------------------------------------------------------------------

/// The text cut to at most `max_length` bytes. The cut must fall on a
/// character boundary when the text is longer.
pub fn snip_text(text: &str, max_length: usize) -> (r: String)
    requires
        encode_utf8(text@).len() > max_length ==> is_char_boundary(
            encode_utf8(text@),
            max_length as int,
        ),
    ensures
        encode_utf8(text@).len() <= max_length ==> r@ == text@,
        encode_utf8(text@).len() > max_length ==> encode_utf8(r@) == encode_utf8(text@).subrange(
            0,
            max_length as int,
        ),
{
    if text.as_bytes().len() <= max_length {
        text.to_owned()
    } else {
        let (head, _) = text.split_at(max_length);
        head.to_owned()
    }
}

// ---------------------------------------------------------------------------
// Dates
// ---------------------------------------------------------------------------

/// The bytes of a PDF date that hold the year: the four after the `D:`
/// prefix when the date has it and is at least six bytes long, otherwise
/// the first four when there are that many.
pub open spec fn year_field(b: Seq<u8>) -> Option<Seq<u8>> {
    if b.len() >= 6 && b[0] == 68u8 && b[1] == 58u8 {
        Some(b.subrange(2, 6))
    } else if b.len() >= 4 {
        Some(b.subrange(0, 4))
    } else {
        None
    }
}

/// Whether the year field of a date starts and ends on character
/// boundaries (else it cannot be cut out).
pub open spec fn year_field_on_boundaries(b: Seq<u8>) -> bool {
    if b.len() >= 6 && b[0] == 68u8 && b[1] == 58u8 {
        is_char_boundary(b, 6)
    } else if b.len() >= 4 {
        is_char_boundary(b, 4)
    } else {
        true
    }
}

/// The year of a PDF date (`D:YYYYMMDDHHmmSS...`, or a bare year first):
/// the year field read as a 32-bit integer.
pub open spec fn pdf_date_year(b: Seq<u8>) -> Option<i32> {
    match year_field(b) {
        Some(f) => parse_i32_spec(decode_utf8(f)),
        None => None,
    }
}

/// In valid UTF-8 that starts with two one-byte characters, the position
/// after them is a character boundary.
proof fn lemma_ascii_prefix_boundary(b: Seq<u8>)
    requires
        vstd::utf8::valid_utf8(b),
        b.len() >= 2,
        b[0] < 128,
        b[1] < 128,
    ensures
        is_char_boundary(b, 2),
{
    let p = vstd::utf8::pop_first_scalar(b);
    assert(p =~= b.subrange(1, b.len() as int));
    assert(vstd::utf8::valid_utf8(p));
    let q = vstd::utf8::pop_first_scalar(p);
    assert(q =~= b.subrange(2, b.len() as int));
    assert(vstd::utf8::valid_utf8(q));
    assert(is_char_boundary(q, 0));
    assert(is_char_boundary(p, 1));
}

/// The year of a PDF date string.
pub fn parse_pdf_date_year(date_str: &str) -> (r: Option<i32>)
    requires
        year_field_on_boundaries(encode_utf8(date_str@)),
    ensures
        r == pdf_date_year(encode_utf8(date_str@)),
{
    let bytes = date_str.as_bytes();
    let n = bytes.len();
    let ghost b = encode_utf8(date_str@);
    if n >= 6 && bytes[0] == 68u8 && bytes[1] == 58u8 {
        assert(is_char_boundary(b, 2)) by {
            lemma_ascii_prefix_boundary(b);
        }
        let (head, _) = date_str.split_at(6);
        assert(is_char_boundary(encode_utf8(head@), 2)) by {
            lemma_ascii_prefix_boundary(encode_utf8(head@));
        }
        let (_, field) = head.split_at(2);
        assert(encode_utf8(field@) =~= b.subrange(2, 6));
        parse_i32(field)
    } else if n >= 4 {
        let (field, _) = date_str.split_at(4);
        parse_i32(field)
    } else {
        None
    }
}

} // verus!

verus! {

// ---------------------------------------------------------------------------
// Values of the info entries
// ---------------------------------------------------------------------------

/// An entry of a PDF's document information, as far as its text matters: a
/// string (raw bytes), a name (raw bytes), or any other kind of object.
#[derive(Clone, Debug)]
pub enum PdfValue {
    Text(Vec<u8>),
    Name(Vec<u8>),
    Other,
}

/// Why an info entry has no text value.
#[derive(Clone, Copy, Debug, PartialEq, Eq, Structural)]
pub enum PdfValueError {
    /// A name whose bytes are not UTF-8.
    InvalidUtf8,
    /// "Not a string object"
    NotAString,
}

/// Bytes read as ISO-8859-1: each byte is the character of that code.
pub open spec fn latin1(b: Seq<u8>) -> Seq<char> {
    b.map_values(|x: u8| x as char)
}

/// The text of an info entry: a string is read as UTF-8 when it is valid
/// UTF-8 and as ISO-8859-1 otherwise; a name must be valid UTF-8; any other
/// object has no text.
pub open spec fn pdf_text(v: PdfValue) -> Result<Seq<char>, PdfValueError> {
    match v {
        PdfValue::Text(b) => if vstd::utf8::valid_utf8(b@) {
            Ok(decode_utf8(b@))
        } else {
            Ok(latin1(b@))
        },
        PdfValue::Name(b) => if vstd::utf8::valid_utf8(b@) {
            Ok(decode_utf8(b@))
        } else {
            Err(PdfValueError::InvalidUtf8)
        },
        PdfValue::Other => Err(PdfValueError::NotAString),
    }
}

/// `String::from_utf8`: the bytes as text when they are valid UTF-8 (as
/// the standard library defines it), and nothing otherwise.
#[verifier::external_body]
fn utf8_text(bytes: Vec<u8>) -> (r: Option<String>)
    ensures
        match r {
            Some(s) => vstd::utf8::valid_utf8(bytes@) && s@ == decode_utf8(bytes@),
            None => !vstd::utf8::valid_utf8(bytes@),
        },
{
    match String::from_utf8(bytes) {
        Ok(s) => Some(s),
        Err(_) => None,
    }
}

/// A copy of a byte vector.
fn copy_bytes(b: &Vec<u8>) -> (r: Vec<u8>)
    ensures
        r@ == b@,
{
    let r = b.clone();
    assert(r@ =~= b@);
    r
}

/// Bytes read as ISO-8859-1.
fn latin1_text(b: &Vec<u8>) -> (r: String)
    ensures
        r@ == latin1(b@),
{
    let mut r = String::new();
    let mut i: usize = 0;
    while i < b.len()
        invariant
            i <= b.len(),
            r@ == latin1(b@.take(i as int)),
        decreases b.len() - i,
    {
        push_char(&mut r, b[i] as char);
        assert(latin1(b@.take(i + 1)) =~= latin1(b@.take(i as int)).push(b@[i as int] as char));
        i += 1;
    }
    assert(b@.take(b.len() as int) =~= b@);
    r
}

/// The text of an info entry.
pub fn extract_pdf_string_value(obj: &PdfValue) -> (r: Result<String, PdfValueError>)
    ensures
        match r {
            Ok(s) => pdf_text(*obj) == Ok::<Seq<char>, PdfValueError>(s@),
            Err(e) => pdf_text(*obj) == Err::<Seq<char>, PdfValueError>(e),
        },
{
    match obj {
        PdfValue::Text(bytes) => match utf8_text(copy_bytes(bytes)) {
            Some(s) => Ok(s),
            None => Ok(latin1_text(bytes)),
        },
        PdfValue::Name(bytes) => match utf8_text(copy_bytes(bytes)) {
            Some(s) => Ok(s),
            None => Err(PdfValueError::InvalidUtf8),
        },
        PdfValue::Other => Err(PdfValueError::NotAString),
    }
}

/// The tags in a keywords entry: the pieces between commas, semicolons and
/// spaces, trimmed, the empty ones left out.
pub open spec fn keyword_tags_spec(k: Seq<char>) -> Seq<Seq<char>> {
    list_items(k, seq![',', ';', ' '])
}

/// The tags in a keywords entry.
pub fn keyword_tags(keywords: &str) -> (r: Vec<String>)
    ensures
        crate::text::views(r@) == keyword_tags_spec(keywords@),
{
    let seps = vec![',', ';', ' '];
    assert(seps@ =~= seq![',', ';', ' ']);
    split_list(keywords, &seps)
}

// ---------------------------------------------------------------------------
// A title from the text
// ---------------------------------------------------------------------------

/// `char::is_ascii_uppercase`.
pub open spec fn is_ascii_upper(c: char) -> bool {
    'A' <= c <= 'Z'
}

/// `char::is_ascii_punctuation`.
pub open spec fn is_ascii_punct(c: char) -> bool {
    ('!' <= c <= '/') || (':' <= c <= '@') || ('[' <= c <= '`') || ('{' <= c <= '~')
}

/// A line made only of capital letters, white space and punctuation.
pub open spec fn is_shouting(l: Seq<char>) -> bool {
    forall|i: int| 0 <= i < l.len() ==> is_ascii_upper(#[trigger] l[i]) || is_ws(l[i]) || is_ascii_punct(l[i])
}

/// The length of text in bytes (UTF-8).
pub open spec fn byte_len(s: Seq<char>) -> nat {
    encode_utf8(s).len()
}

/// Whether a trimmed line can be a title: between 6 and 99 bytes long, not
/// a copyright, permission, attribution or licence line, no e-mail address,
/// no arXiv note, no link, and not all capitals.
pub open spec fn title_candidate(l: Seq<char>) -> bool {
    let low = lowercase(l);
    &&& 5 < byte_len(l) < 100
    &&& !has_sub(low, "copyright"@)
    &&& !has_sub(low, "permission"@)
    &&& !has_sub(low, "attribution"@)
    &&& !has_sub(low, "proper"@)
    &&& !has_sub(low, "google hereby"@)
    &&& !has_sub(l, "@"@)
    &&& !has_sub(l, "arXiv"@)
    &&& !has_prefix(l, "http"@)
    &&& !is_shouting(l)
}

/// The first line (trimmed) among `ls` that can be a title.
pub open spec fn first_candidate(ls: Seq<Seq<char>>) -> Option<Seq<char>>
    decreases ls.len(),
{
    if ls.len() == 0 {
        None
    } else if title_candidate(trim(ls[0])) {
        Some(trim(ls[0]))
    } else {
        first_candidate(ls.drop_first())
    }
}

/// The title found in a document's text: the first of its first fifteen
/// lines that can be a title, or else its first line when that is not blank
/// and shorter than 200 bytes.
pub open spec fn text_title(text: Seq<char>) -> Option<Seq<char>> {
    let ls = lines_of(text);
    let head = if ls.len() <= 15 {
        ls
    } else {
        ls.take(15)
    };
    match first_candidate(head) {
        Some(t) => Some(t),
        None => first_line_title(text),
    }
}

/// The first line of the text, trimmed, when it is not blank and shorter
/// than 200 bytes.
pub open spec fn first_line_title(text: Seq<char>) -> Option<Seq<char>> {
    let ls = lines_of(text);
    let first = if ls.len() > 0 {
        trim(ls[0])
    } else {
        Seq::<char>::empty()
    };
    if first.len() > 0 && byte_len(first) < 200 {
        Some(first)
    } else {
        None
    }
}

/// The number of bytes of some characters in UTF-8.
fn byte_count(cs: &Vec<char>) -> (n: usize)
    ensures
        n == byte_len(cs@),
{
    let s = string_of(cs);
    s.as_str().as_bytes().len()
}

/// Whether every character is a capital letter, white space or
/// punctuation.
fn shouting(l: &Vec<char>) -> (b: bool)
    ensures
        b == is_shouting(l@),
{
    let mut i: usize = 0;
    while i < l.len()
        invariant
            i <= l.len(),
            forall|k: int| 0 <= k < i ==> is_ascii_upper(#[trigger] l@[k]) || is_ws(l@[k]) || is_ascii_punct(l@[k]),
        decreases l.len() - i,
    {
        let c = l[i];
        let ok = ('A' <= c && c <= 'Z') || is_whitespace(c) || ('!' <= c && c <= '/') || (':' <= c
            && c <= '@') || ('[' <= c && c <= '`') || ('{' <= c && c <= '~');
        if !ok {
            return false;
        }
        i += 1;
    }
    true
}

/// Whether the text contains the given words.
fn has_words(s: &Vec<char>, w: &str) -> (b: bool)
    ensures
        b == has_sub(s@, w@),
{
    let wc = chars_of(w);
    contains_chars(s, &wc)
}

/// Whether a trimmed line can be a title.
fn is_title_candidate(l: &Vec<char>) -> (b: bool)
    ensures
        b == title_candidate(l@),
{
    let n = byte_count(l);
    if !(n > 5 && n < 100) {
        return false;
    }
    let s = string_of(l);
    let low = chars_of(to_lowercase(s.as_str()).as_str());
    if has_words(&low, "copyright") || has_words(&low, "permission") || has_words(
        &low,
        "attribution",
    ) || has_words(&low, "proper") || has_words(&low, "google hereby") {
        return false;
    }
    if has_words(l, "@") || has_words(l, "arXiv") {
        return false;
    }
    let http = chars_of("http");
    if starts_with_chars(l, &http) {
        return false;
    }
    !shouting(l)
}

/// The first line of the text, trimmed, when it is not blank and shorter
/// than 200 bytes.
pub fn first_line_title_of(text: &str) -> (r: Option<String>)
    ensures
        crate::library::opt_view(r) == first_line_title(text@),
{
    let cs = chars_of(text);
    let ls = lines(&cs);
    let first = if ls.len() > 0 {
        trim_chars(&ls[0])
    } else {
        Vec::new()
    };
    proof {
        if ls@.len() > 0 {
            assert(crate::text::char_views(ls@)[0] == ls@[0]@);
        }
    }
    if first.len() > 0 && byte_count(&first) < 200 {
        Some(string_of(&first))
    } else {
        None
    }
}

/// The title found in a document's text.
pub fn find_text_title(text: &str) -> (r: Option<String>)
    ensures
        crate::library::opt_view(r) == text_title(text@),
{
    let cs = chars_of(text);
    let ls = lines(&cs);
    let ghost all = lines_of(text@);
    let ghost head = if all.len() <= 15 {
        all
    } else {
        all.take(15)
    };
    let limit = if ls.len() <= 15 {
        ls.len()
    } else {
        15
    };
    let mut i: usize = 0;
    assert(head.skip(0) =~= head);
    while i < limit
        invariant
            i <= limit,
            limit == head.len(),
            head.len() <= ls@.len(),
            crate::text::char_views(ls@) == all,
            all == lines_of(text@),
            head == (if all.len() <= 15 {
                all
            } else {
                all.take(15)
            }),
            first_candidate(head) == first_candidate(head.skip(i as int)),
        decreases limit - i,
    {
        let l = trim_chars(&ls[i]);
        assert(head.skip(i as int)[0] == ls@[i as int]@);
        if is_title_candidate(&l) {
            assert(head.skip(i as int).len() > 0);
            assert(first_candidate(head.skip(i as int)) == Some(l@));
            return Some(string_of(&l));
        }
        assert(head.skip(i as int).drop_first() =~= head.skip(i + 1));
        i += 1;
    }
    assert(head.skip(limit as int).len() == 0);
    first_line_title_of(text)
}

} // verus!

verus! {

// ---------------------------------------------------------------------------
// Metadata read directly from a PDF
// ---------------------------------------------------------------------------

/// The document information entries of a PDF that are read.
#[derive(Clone, Debug)]
pub struct PdfInfo {
    pub title: Option<PdfValue>,
    pub author: Option<PdfValue>,
    pub subject: Option<PdfValue>,
    pub keywords: Option<PdfValue>,
    pub creator: Option<PdfValue>,
    pub producer: Option<PdfValue>,
    pub creation_date: Option<PdfValue>,
    pub mod_date: Option<PdfValue>,
}

/// What is read from an opened PDF: its information entries (when it has
/// an information dictionary), its number of pages, and the text of its
/// first pages (at most three; `None` for a page whose text could not be
/// extracted).
#[derive(Clone, Debug)]
pub struct PdfDocument {
    pub info: Option<PdfInfo>,
    pub page_count: usize,
    pub page_texts: Vec<Option<String>>,
}

/// The text of an entry, when it has one.
pub open spec fn entry_text(v: Option<PdfValue>) -> Option<Seq<char>> {
    match v {
        Some(x) => match pdf_text(x) {
            Ok(s) => Some(s),
            Err(_) => None,
        },
        None => None,
    }
}

/// The text of an entry, when it has one that is not empty.
pub open spec fn entry_nonempty(v: Option<PdfValue>) -> Option<Seq<char>> {
    match entry_text(v) {
        Some(s) => if s.len() > 0 {
            Some(s)
        } else {
            None
        },
        None => None,
    }
}

/// The text of the first pages: each extracted page's text followed by a
/// line break.
pub open spec fn pages_text(p: Seq<Option<String>>) -> Seq<char>
    decreases p.len(),
{
    if p.len() == 0 {
        Seq::empty()
    } else {
        pages_text(p.drop_last()) + match p.last() {
            Some(t) => t@ + "\n"@,
            None => Seq::empty(),
        }
    }
}

/// The named values kept from the information entries: creator and
/// producer when not empty, creation and modification dates when present.
pub open spec fn info_values(i: PdfInfo) -> Seq<(Seq<char>, Seq<char>)> {
    (match entry_nonempty(i.creator) {
        Some(c) => seq![("creator"@, c)],
        None => Seq::empty(),
    }) + (match entry_nonempty(i.producer) {
        Some(p) => seq![("producer"@, p)],
        None => Seq::empty(),
    }) + (match entry_text(i.creation_date) {
        Some(d) => seq![("creation_date"@, d)],
        None => Seq::empty(),
    }) + (match entry_text(i.mod_date) {
        Some(d) => seq![("modification_date"@, d)],
        None => Seq::empty(),
    })
}

/// The title from the information entries, or else (when the text is not
/// empty) from the text, or else none.
pub open spec fn direct_title(d: PdfDocument) -> Seq<char> {
    let from_info = match d.info {
        Some(i) => entry_nonempty(i.title),
        None => None,
    };
    let text = pages_text(d.page_texts@);
    match from_info {
        Some(t) => t,
        None => if text.len() > 0 {
            match text_title(text) {
                Some(t) => t,
                None => Seq::empty(),
            }
        } else {
            Seq::empty()
        },
    }
}

/// The metadata read directly from a PDF: title, author, subject as
/// summary, keywords as tags, the year of the creation date, the creator,
/// producer and dates as named values, in the uncategorized category.
pub open spec fn direct_metadata(d: PdfDocument) -> crate::metadata::MetaView {
    crate::metadata::MetaView {
        title: direct_title(d),
        authors: match d.info {
            Some(i) => match entry_nonempty(i.author) {
                Some(a) => seq![a],
                None => Seq::empty(),
            },
            None => Seq::empty(),
        },
        year: match d.info {
            Some(i) => match entry_text(i.creation_date) {
                Some(t) => pdf_date_year(encode_utf8(t)),
                None => None,
            },
            None => None,
        },
        publisher: None,
        source: None,
        category1: "未分类"@,
        category2: None,
        category3: None,
        tags: match d.info {
            Some(i) => match entry_nonempty(i.keywords) {
                Some(k) => keyword_tags_spec(k),
                None => Seq::empty(),
            },
            None => Seq::empty(),
        },
        summary: match d.info {
            Some(i) => entry_nonempty(i.subject),
            None => None,
        },
        full_text: None,
        additional_info: match d.info {
            Some(i) => info_values(i),
            None => Seq::empty(),
        },
    }
}

/// Whether the creation date, when it is read, can be cut at its year.
pub open spec fn date_readable(d: PdfDocument) -> bool {
    match d.info {
        Some(i) => match entry_text(i.creation_date) {
            Some(t) => year_field_on_boundaries(encode_utf8(t)),
            None => true,
        },
        None => true,
    }
}

/// Whether a text's preview cut (at 200 bytes) falls on a character
/// boundary when the text is longer.
pub open spec fn preview_cuttable(t: Seq<char>) -> bool {
    encode_utf8(t).len() > 200 ==> is_char_boundary(encode_utf8(t), 200)
}

/// The preview of a text: its first 200 bytes and "..." when it is longer,
/// the whole text otherwise.
pub open spec fn preview_of(t: Seq<char>, p: Seq<char>) -> bool {
    if encode_utf8(t).len() > 200 {
        exists|head: Seq<char>| encode_utf8(head) == encode_utf8(t).subrange(0, 200) && p == head + "..."@
    } else {
        p == t
    }
}

/// What the direct reading of a PDF gives: the metadata, the text of the
/// first pages, whether it holds anything but white space, its length in
/// bytes and its preview.
#[derive(Clone, Debug)]
pub struct DirectExtraction {
    pub metadata: crate::metadata::ImportMetadata,
    pub page_count: usize,
    pub text: String,
    pub has_text: bool,
    pub text_length: usize,
    pub text_preview: String,
}

/// The text of an entry, when it has one.
fn entry_text_of(v: &Option<PdfValue>) -> (r: Option<String>)
    ensures
        opt_view(r) == entry_text(*v),
{
    match v {
        Some(x) => match extract_pdf_string_value(x) {
            Ok(s) => Some(s),
            Err(_) => None,
        },
        None => None,
    }
}

/// The text of an entry, when it has one that is not empty.
fn entry_nonempty_of(v: &Option<PdfValue>) -> (r: Option<String>)
    ensures
        opt_view(r) == entry_nonempty(*v),
{
    match entry_text_of(v) {
        Some(s) => if s.as_str().is_empty() {
            None
        } else {
            Some(s)
        },
        None => None,
    }
}

/// The preview of a text.
fn preview_text(t: &String) -> (r: String)
    requires
        preview_cuttable(t@),
    ensures
        preview_of(t@, r@),
{
    if t.as_str().as_bytes().len() > 200 {
        let mut p = snip_text(t.as_str(), 200);
        let ghost head = p@;
        crate::text::push_str(&mut p, "...");
        assert(p@ == head + "..."@);
        p
    } else {
        snip_text(t.as_str(), 200)
    }
}

/// The text of the pages that have one, each followed by a line break.
fn pages_text_of(pages: &Vec<Option<String>>) -> (r: String)
    ensures
        r@ == pages_text(pages@),
{
    let mut text = String::new();
    let mut i: usize = 0;
    while i < pages.len()
        invariant
            i <= pages.len(),
            text@ == pages_text(pages@.take(i as int)),
        decreases pages.len() - i,
    {
        match &pages[i] {
            Some(t) => {
                crate::text::push_str(&mut text, t.as_str());
                crate::text::push_str(&mut text, "\n");
            },
            None => {},
        }
        assert(pages@.take(i + 1).drop_last() =~= pages@.take(i as int));
        i += 1;
    }
    assert(pages@.take(pages.len() as int) =~= pages@);
    text
}

/// The preview of a text (its first 200 bytes and "...", or the whole
/// text when it is not longer), when the cut falls on a character
/// boundary; `None` otherwise.
pub fn try_text_preview(t: &String) -> (r: Option<String>)
    ensures
        r is Some <==> preview_cuttable(t@),
        r matches Some(p) ==> preview_of(t@, p@),
{
    if t.as_str().as_bytes().len() <= 200 || t.as_str().is_char_boundary(200) {
        Some(preview_text(t))
    } else {
        None
    }
}

/// Reads the metadata of an opened PDF directly.
pub fn extract_pdf_direct(doc: &PdfDocument) -> (r: DirectExtraction)
    requires
        date_readable(*doc),
        preview_cuttable(pages_text(doc.page_texts@)),
    ensures
        r.metadata@ == direct_metadata(*doc),
        r.page_count == doc.page_count,
        r.text@ == pages_text(doc.page_texts@),
        r.has_text == (trim(r.text@).len() > 0),
        r.text_length == encode_utf8(r.text@).len(),
        preview_of(r.text@, r.text_preview@),
{
    let text = pages_text_of(&doc.page_texts);
    let mut title = String::new();
    let mut authors: Vec<String> = Vec::new();
    let mut year: Option<i32> = None;
    let mut tags: Vec<String> = Vec::new();
    let mut summary: Option<String> = None;
    let mut info_pairs: Vec<(String, String)> = Vec::new();
    match &doc.info {
        Some(info) => {
            match entry_nonempty_of(&info.title) {
                Some(t) => {
                    title = t;
                },
                None => {},
            }
            match entry_nonempty_of(&info.author) {
                Some(a) => {
                    authors.push(a);
                },
                None => {},
            }
            summary = entry_nonempty_of(&info.subject);
            match entry_nonempty_of(&info.keywords) {
                Some(k) => {
                    tags = keyword_tags(k.as_str());
                },
                None => {},
            }
            match entry_nonempty_of(&info.creator) {
                Some(c) => info_pairs.push(("creator".to_owned(), c)),
                None => {},
            }
            match entry_nonempty_of(&info.producer) {
                Some(p) => info_pairs.push(("producer".to_owned(), p)),
                None => {},
            }
            match entry_text_of(&info.creation_date) {
                Some(d) => {
                    year = parse_pdf_date_year(d.as_str());
                    info_pairs.push(("creation_date".to_owned(), d));
                },
                None => {},
            }
            match entry_text_of(&info.mod_date) {
                Some(d) => info_pairs.push(("modification_date".to_owned(), d)),
                None => {},
            }
            assert(crate::metadata::pair_views(info_pairs@) =~= info_values(*info));
        },
        None => {
            assert(crate::metadata::pair_views(info_pairs@) =~= Seq::<(Seq<char>, Seq<char>)>::empty());
        },
    }
    if title.as_str().is_empty() && !text.as_str().is_empty() {
        match find_text_title(text.as_str()) {
            Some(t) => {
                title = t;
            },
            None => {},
        }
    }
    assert(crate::text::views(authors@) =~= direct_metadata(*doc).authors);
    assert(crate::text::views(tags@) =~= direct_metadata(*doc).tags);
    let metadata = crate::metadata::ImportMetadata {
        title,
        authors,
        year,
        publisher: None,
        source: None,
        category1: "未分类".to_owned(),
        category2: None,
        category3: None,
        tags,
        summary,
        full_text: None,
        additional_info: info_pairs,
    };
    let has_text = !crate::text::blank(text.as_str());
    let text_length = text.as_str().as_bytes().len();
    let text_preview = preview_text(&text);
    DirectExtraction { metadata, page_count: doc.page_count, text, has_text, text_length, text_preview }
}

/// Whether the year field of a date can be cut out of it.
fn year_field_cuttable(d: &str) -> (r: bool)
    ensures
        r == year_field_on_boundaries(encode_utf8(d@)),
{
    let bytes = d.as_bytes();
    let n = bytes.len();
    if n >= 6 && bytes[0] == 68u8 && bytes[1] == 58u8 {
        d.is_char_boundary(6)
    } else if n >= 4 {
        d.is_char_boundary(4)
    } else {
        true
    }
}

/// Reads the metadata of an opened PDF directly when its creation date's
/// year and its text's preview can be cut out; `None` otherwise (the
/// direct reading cannot go through such a document).
pub fn try_extract_pdf_direct(doc: &PdfDocument) -> (r: Option<DirectExtraction>)
    ensures
        r is Some <==> date_readable(*doc) && preview_cuttable(pages_text(doc.page_texts@)),
        r matches Some(x) ==> {
            &&& x.metadata@ == direct_metadata(*doc)
            &&& x.page_count == doc.page_count
            &&& x.text@ == pages_text(doc.page_texts@)
            &&& x.has_text == (trim(x.text@).len() > 0)
            &&& x.text_length == encode_utf8(x.text@).len()
            &&& preview_of(x.text@, x.text_preview@)
        },
{
    let date_ok = match &doc.info {
        Some(info) => match entry_text_of(&info.creation_date) {
            Some(d) => year_field_cuttable(d.as_str()),
            None => true,
        },
        None => true,
    };
    let text = pages_text_of(&doc.page_texts);
    let preview_ok = text.as_str().as_bytes().len() <= 200 || text.as_str().is_char_boundary(200);
    if date_ok && preview_ok {
        Some(extract_pdf_direct(doc))
    } else {
        None
    }
}

// ---------------------------------------------------------------------------
// The fallback reader
// ---------------------------------------------------------------------------

/// What the fallback reader gives for a file the PDF parser could not
/// open: whether it read the text, the text, and a title from the text's
/// first line.
#[derive(Clone, Debug)]
pub struct FallbackExtraction {
    pub succeeded: bool,
    pub text: String,
    pub title: String,
    pub metadata: crate::metadata::ImportMetadata,
}

/// The metadata known after the fallback reader: only a title, in the
/// uncategorized category.
pub open spec fn fallback_metadata(title: Seq<char>) -> crate::metadata::MetaView {
    crate::metadata::MetaView {
        title,
        authors: Seq::empty(),
        year: None,
        publisher: None,
        source: None,
        category1: "未分类"@,
        category2: None,
        category3: None,
        tags: Seq::empty(),
        summary: None,
        full_text: None,
        additional_info: Seq::empty(),
    }
}

/// The metadata holding only a title.
fn titled_metadata(title: &String) -> (r: crate::metadata::ImportMetadata)
    ensures
        r@ == fallback_metadata(title@),
{
    let r = crate::metadata::ImportMetadata {
        title: title.clone(),
        authors: Vec::new(),
        year: None,
        publisher: None,
        source: None,
        category1: "未分类".to_owned(),
        category2: None,
        category3: None,
        tags: Vec::new(),
        summary: None,
        full_text: None,
        additional_info: Vec::new(),
    };
    assert(r@.authors =~= Seq::<Seq<char>>::empty());
    assert(r@.tags =~= Seq::<Seq<char>>::empty());
    assert(r@.additional_info =~= Seq::<(Seq<char>, Seq<char>)>::empty());
    r
}

/// What the fallback reader gives, from what `pdf_extract` read of the
/// file (`Some` of the text, or `None` when it failed): the text, and a
/// title from the text's first line (trimmed, when not blank and under 200
/// bytes).
pub fn extract_fallback(extracted: Option<String>) -> (r: FallbackExtraction)
    ensures
        r.succeeded == extracted is Some,
        r.succeeded ==> r.text@ == extracted->0@,
        !r.succeeded ==> r.text@.len() == 0,
        r.title@ == if r.succeeded && r.text@.len() > 0 {
            match first_line_title(r.text@) {
                Some(t) => t,
                None => Seq::empty(),
            }
        } else {
            Seq::empty()
        },
        r.metadata@ == fallback_metadata(r.title@),
{
    match extracted {
        Some(text) => {
            let title = if text.as_str().is_empty() {
                String::new()
            } else {
                match first_line_title_of(text.as_str()) {
                    Some(t) => t,
                    None => String::new(),
                }
            };
            let metadata = titled_metadata(&title);
            FallbackExtraction { succeeded: true, text, title, metadata }
        },
        None => {
            let title = String::new();
            let metadata = titled_metadata(&title);
            FallbackExtraction { succeeded: false, text: String::new(), title, metadata }
        },
    }
}

} // verus!

verus! {

// ---------------------------------------------------------------------------
// Which line the title is
// ---------------------------------------------------------------------------

/// Whether a line is a clean title: 6 to 99 bytes of UTF-8; not a
/// copyright, permission, attribution, licence ("proper") or "Google
/// hereby" line (in any case); without "@" (an e-mail address) or "arXiv"
/// (an arXiv note); not starting with "http" (a link); and not made only of
/// capitals, white space and punctuation.
pub open spec fn clean_title_line(l: Seq<char>) -> bool {
    &&& 6 <= byte_len(l) <= 99
    &&& !has_sub(lowercase(l), "copyright"@)
    &&& !has_sub(lowercase(l), "permission"@)
    &&& !has_sub(lowercase(l), "attribution"@)
    &&& !has_sub(lowercase(l), "proper"@)
    &&& !has_sub(lowercase(l), "google hereby"@)
    &&& !has_sub(l, "@"@) && !has_sub(l, "arXiv"@) && !has_prefix(l, "http"@)
    &&& !is_shouting(l)
}

/// The first fifteen lines of a text (all of them when there are fewer).
pub open spec fn head_lines(text: Seq<char>) -> Seq<Seq<char>> {
    let ls = lines_of(text);
    ls.take(if ls.len() < 15 { ls.len() as int } else { 15 })
}

proof fn lemma_title_candidate_is_clean(l: Seq<char>)
    ensures
        title_candidate(l) <==> clean_title_line(l),
{
}

proof fn lemma_first_candidate_at(ls: Seq<Seq<char>>, j: int)
    requires
        0 <= j < ls.len(),
        clean_title_line(trim(ls[j])),
        forall|k: int| 0 <= k < j ==> !clean_title_line(#[trigger] trim(ls[k])),
    ensures
        first_candidate(ls) == Some(trim(ls[j])),
    decreases j,
{
    lemma_title_candidate_is_clean(trim(ls[0]));
    if j > 0 {
        let rest = ls.drop_first();
        assert forall|k: int| 0 <= k < j - 1 implies !clean_title_line(#[trigger] trim(rest[k])) by {
            assert(rest[k] == ls[k + 1]);
        }
        assert(rest[j - 1] == ls[j]);
        lemma_first_candidate_at(rest, j - 1);
    }
}

proof fn lemma_first_candidate_none(ls: Seq<Seq<char>>)
    requires
        forall|k: int| 0 <= k < ls.len() ==> !clean_title_line(#[trigger] trim(ls[k])),
    ensures
        first_candidate(ls) is None,
    decreases ls.len(),
{
    if ls.len() > 0 {
        lemma_title_candidate_is_clean(trim(ls[0]));
        let rest = ls.drop_first();
        assert forall|k: int| 0 <= k < rest.len() implies !clean_title_line(#[trigger] trim(rest[k])) by {
            assert(rest[k] == ls[k + 1]);
        }
        lemma_first_candidate_none(rest);
    }
}

/// The title found in a text is the first clean line among its first
/// fifteen (trimmed) when there is one, so it never holds "arXiv" or "@",
/// never starts with "http" and is no copyright or licence line; only when
/// none of those lines is clean is the first line taken instead.
pub proof fn lemma_text_title_first_clean_line(text: Seq<char>, j: int)
    ensures
        0 <= j < head_lines(text).len() && clean_title_line(trim(head_lines(text)[j]))
            && (forall|k: int| 0 <= k < j ==> !clean_title_line(#[trigger] trim(head_lines(text)[k])))
            ==> text_title(text) == Some(trim(head_lines(text)[j])),
        (forall|k: int| 0 <= k < head_lines(text).len() ==> !clean_title_line(#[trigger] trim(head_lines(text)[k])))
            ==> text_title(text) == first_line_title(text),
        text_title(text) != first_line_title(text) ==> text_title(text) is Some && clean_title_line(text_title(text)->0)
            && !has_sub(text_title(text)->0, "arXiv"@) && !has_sub(text_title(text)->0, "@"@)
            && !has_prefix(text_title(text)->0, "http"@),
{
    let ls = lines_of(text);
    let head = head_lines(text);
    if ls.len() <= 15 {
        assert(head =~= ls);
    }
    if 0 <= j < head.len() && clean_title_line(trim(head[j]))
        && (forall|k: int| 0 <= k < j ==> !clean_title_line(#[trigger] trim(head[k]))) {
        lemma_first_candidate_at(head, j);
    }
    if forall|k: int| 0 <= k < head.len() ==> !clean_title_line(#[trigger] trim(head[k])) {
        lemma_first_candidate_none(head);
    }
    if text_title(text) != first_line_title(text) {
        lemma_first_candidate_clean(head);
    }
}

proof fn lemma_first_candidate_clean(ls: Seq<Seq<char>>)
    ensures
        first_candidate(ls) matches Some(t) ==> clean_title_line(t),
    decreases ls.len(),
{
    if ls.len() > 0 {
        lemma_title_candidate_is_clean(trim(ls[0]));
        lemma_first_candidate_clean(ls.drop_first());
    }
}

} // verus!
