//! File metadata as the import and edit forms collect it: the metadata
//! record, the fields of each form, how a form is filled from a file or
//! from extracted metadata, how a form is read back into metadata, the
//! form checks, and the update requests sent to storage.

use vstd::prelude::*;

use crate::library::{opt_view, FileEntry, StoredFile};
use crate::text::{
    clean_items, lemma_list_items_clean, lemma_split_nonempty, split_on,
    comma_list, list_items, parse_i32, parse_i32_spec, push_signed_decimal, push_str,
    signed_decimal, trim, trim_str, views,
};

verus! {

broadcast use vstd::string::group_string_axioms;

// ---------------------------------------------------------------------------
// Lists of names
// ---------------------------------------------------------------------------

/// The items joined with `sep` between them (`[String]::join`).
pub open spec fn join_spec(items: Seq<Seq<char>>, sep: Seq<char>) -> Seq<char>
    decreases items.len(),
{
    if items.len() == 0 {
        Seq::empty()
    } else if items.len() == 1 {
        items[0]
    } else {
        join_spec(items.drop_last(), sep) + sep + items.last()
    }
}

/// The items of a comma-separated field: trimmed, the empty ones dropped.
pub open spec fn comma_items(s: Seq<char>) -> Seq<Seq<char>> {
    list_items(s, seq![','])
}

/// The items joined with `sep` between them.
pub fn join_with(items: &Vec<String>, sep: &str) -> (r: String)
    ensures
        r@ == join_spec(views(items@), sep@),
{
    let mut r = String::new();
    let mut i: usize = 0;
    while i < items.len()
        invariant
            i <= items.len(),
            r@ == join_spec(views(items@).take(i as int), sep@),
        decreases items.len() - i,
    {
        let ghost before = r@;
        if i > 0 {
            push_str(&mut r, sep);
        }
        push_str(&mut r, items[i].as_str());
        assert(views(items@).take(i + 1).drop_last() =~= views(items@).take(i as int));
        if i == 0 {
            assert(r@ =~= items@[0]@);
        }
        i += 1;
    }
    assert(views(items@).take(items.len() as int) =~= views(items@));
    r
}

/// A field's text, or none when it is empty.
pub open spec fn nonempty(s: Seq<char>) -> Option<Seq<char>> {
    if s.len() == 0 {
        None
    } else {
        Some(s)
    }
}

/// A field's text (untrimmed), or none when it is blank.
pub open spec fn nonblank(s: Seq<char>) -> Option<Seq<char>> {
    if trim(s).len() == 0 {
        None
    } else {
        Some(s)
    }
}

/// The text of an optional value, or empty text.
pub open spec fn or_empty(o: Option<Seq<char>>) -> Seq<char> {
    match o {
        Some(s) => s,
        None => Seq::empty(),
    }
}

/// A field's text, or none when it is empty.
fn nonempty_of(s: &String) -> (r: Option<String>)
    ensures
        opt_view(r) == nonempty(s@),
{
    if s.as_str().is_empty() {
        None
    } else {
        Some(s.clone())
    }
}

/// A field's text, or none when it is blank.
fn nonblank_of(s: &String) -> (r: Option<String>)
    ensures
        opt_view(r) == nonblank(s@),
{
    let t = trim_str(s.as_str());
    if t.as_str().is_empty() {
        None
    } else {
        Some(s.clone())
    }
}

/// The text of an optional value, or empty text.
fn or_empty_of(o: &Option<String>) -> (r: String)
    ensures
        r@ == or_empty(opt_view(*o)),
{
    match o {
        Some(s) => s.clone(),
        None => String::new(),
    }
}

// ---------------------------------------------------------------------------
// The metadata record
// ---------------------------------------------------------------------------

/// What is known of a file to import or to update: title, authors, year,
/// publisher, source, the three category levels, tags, summary, full text
/// and further named values.
#[derive(Clone, Debug)]
pub struct ImportMetadata {
    pub title: String,
    pub authors: Vec<String>,
    pub year: Option<i32>,
    pub publisher: Option<String>,
    pub source: Option<String>,
    pub category1: String,
    pub category2: Option<String>,
    pub category3: Option<String>,
    pub tags: Vec<String>,
    pub summary: Option<String>,
    pub full_text: Option<String>,
    pub additional_info: Vec<(String, String)>,
}

/// The value of an `ImportMetadata`.
pub struct MetaView {
    pub title: Seq<char>,
    pub authors: Seq<Seq<char>>,
    pub year: Option<i32>,
    pub publisher: Option<Seq<char>>,
    pub source: Option<Seq<char>>,
    pub category1: Seq<char>,
    pub category2: Option<Seq<char>>,
    pub category3: Option<Seq<char>>,
    pub tags: Seq<Seq<char>>,
    pub summary: Option<Seq<char>>,
    pub full_text: Option<Seq<char>>,
    pub additional_info: Seq<(Seq<char>, Seq<char>)>,
}

/// The values of a list of named values.
pub open spec fn pair_views(v: Seq<(String, String)>) -> Seq<(Seq<char>, Seq<char>)> {
    v.map_values(|p: (String, String)| (p.0@, p.1@))
}

impl View for ImportMetadata {
    type V = MetaView;

    open spec fn view(&self) -> MetaView {
        MetaView {
            title: self.title@,
            authors: views(self.authors@),
            year: self.year,
            publisher: opt_view(self.publisher),
            source: opt_view(self.source),
            category1: self.category1@,
            category2: opt_view(self.category2),
            category3: opt_view(self.category3),
            tags: views(self.tags@),
            summary: opt_view(self.summary),
            full_text: opt_view(self.full_text),
            additional_info: pair_views(self.additional_info@),
        }
    }
}

// ---------------------------------------------------------------------------
// The edit page
// ---------------------------------------------------------------------------

/// The fields of the edit page.
#[derive(Clone, Debug)]
pub struct EditFields {
    pub title: String,
    pub authors: String,
    pub tags: String,
    pub summary: String,
    pub category1: String,
    pub category2: String,
    pub category3: String,
}

/// The value of `EditFields`.
pub struct EditFieldsView {
    pub title: Seq<char>,
    pub authors: Seq<char>,
    pub tags: Seq<char>,
    pub summary: Seq<char>,
    pub category1: Seq<char>,
    pub category2: Seq<char>,
    pub category3: Seq<char>,
}

impl View for EditFields {
    type V = EditFieldsView;

    open spec fn view(&self) -> EditFieldsView {
        EditFieldsView {
            title: self.title@,
            authors: self.authors@,
            tags: self.tags@,
            summary: self.summary@,
            category1: self.category1@,
            category2: self.category2@,
            category3: self.category3@,
        }
    }
}

/// The edit page's fields for a file: its title, its authors and tags
/// joined with ", ", its summary, and its category levels (empty where
/// absent).
pub open spec fn edit_fields_of_entry(e: crate::library::FileEntryView) -> EditFieldsView {
    EditFieldsView {
        title: e.title,
        authors: join_spec(e.authors, ", "@),
        tags: join_spec(e.tags, ", "@),
        summary: or_empty(e.summary),
        category1: match e.category {
            Some(c) => c.level1,
            None => Seq::empty(),
        },
        category2: match e.category {
            Some(c) => or_empty(c.level2),
            None => Seq::empty(),
        },
        category3: match e.category {
            Some(c) => or_empty(c.level3),
            None => Seq::empty(),
        },
    }
}

/// The edit page's fields after extracting metadata again.
pub open spec fn edit_fields_of_meta(m: MetaView) -> EditFieldsView {
    EditFieldsView {
        title: m.title,
        authors: join_spec(m.authors, ", "@),
        tags: join_spec(m.tags, ", "@),
        summary: or_empty(m.summary),
        category1: m.category1,
        category2: or_empty(m.category2),
        category3: or_empty(m.category3),
    }
}

/// The metadata saved from the edit page: the title and first level as
/// entered, the authors and tags as comma-separated lists, the other levels
/// and the summary when not empty; year, publisher, source and full text
/// are not edited there.
pub open spec fn edit_metadata(f: EditFieldsView) -> MetaView {
    MetaView {
        title: f.title,
        authors: comma_items(f.authors),
        year: None,
        publisher: None,
        source: None,
        category1: f.category1,
        category2: nonempty(f.category2),
        category3: nonempty(f.category3),
        tags: comma_items(f.tags),
        summary: nonempty(f.summary),
        full_text: None,
        additional_info: Seq::empty(),
    }
}

impl EditFields {
    /// The fields for a file (also what "Reset to Original" restores).
    pub fn from_entry(e: &FileEntry) -> (r: Self)
        ensures
            r@ == edit_fields_of_entry(e@),
    {
        let (c1, c2, c3) = match &e.category {
            Some(c) => (c.level1.clone(), or_empty_of(&c.level2), or_empty_of(&c.level3)),
            None => (String::new(), String::new(), String::new()),
        };
        EditFields {
            title: e.title.clone(),
            authors: join_with(&e.authors, ", "),
            tags: join_with(&e.tags, ", "),
            summary: or_empty_of(&e.summary),
            category1: c1,
            category2: c2,
            category3: c3,
        }
    }

    /// The fields after extracting metadata again.
    pub fn from_metadata(m: &ImportMetadata) -> (r: Self)
        ensures
            r@ == edit_fields_of_meta(m@),
    {
        EditFields {
            title: m.title.clone(),
            authors: join_with(&m.authors, ", "),
            tags: join_with(&m.tags, ", "),
            summary: or_empty_of(&m.summary),
            category1: m.category1.clone(),
            category2: or_empty_of(&m.category2),
            category3: or_empty_of(&m.category3),
        }
    }

    /// The metadata to save.
    pub fn to_metadata(&self) -> (r: ImportMetadata)
        ensures
            r@ == edit_metadata(self@),
    {
        let r = ImportMetadata {
            title: self.title.clone(),
            authors: comma_list(self.authors.as_str()),
            year: None,
            publisher: None,
            source: None,
            category1: self.category1.clone(),
            category2: nonempty_of(&self.category2),
            category3: nonempty_of(&self.category3),
            tags: comma_list(self.tags.as_str()),
            summary: nonempty_of(&self.summary),
            full_text: None,
            additional_info: Vec::new(),
        };
        assert(pair_views(r.additional_info@) =~= Seq::<(Seq<char>, Seq<char>)>::empty());
        r
    }
}

} // verus!

verus! {

// ---------------------------------------------------------------------------
// The import page
// ---------------------------------------------------------------------------

/// The fields of the import page.
#[derive(Clone, Debug)]
pub struct ImportFields {
    pub title: String,
    pub authors: String,
    pub year: String,
    pub publisher: String,
    pub tags: String,
    pub summary: String,
    pub category1: String,
    pub category2: String,
    pub category3: String,
}

/// The value of `ImportFields`.
pub struct ImportFieldsView {
    pub title: Seq<char>,
    pub authors: Seq<char>,
    pub year: Seq<char>,
    pub publisher: Seq<char>,
    pub tags: Seq<char>,
    pub summary: Seq<char>,
    pub category1: Seq<char>,
    pub category2: Seq<char>,
    pub category3: Seq<char>,
}

impl View for ImportFields {
    type V = ImportFieldsView;

    open spec fn view(&self) -> ImportFieldsView {
        ImportFieldsView {
            title: self.title@,
            authors: self.authors@,
            year: self.year@,
            publisher: self.publisher@,
            tags: self.tags@,
            summary: self.summary@,
            category1: self.category1@,
            category2: self.category2@,
            category3: self.category3@,
        }
    }
}

/// The text of a field that keeps its value when the metadata has none.
pub open spec fn keep_or(old: Seq<char>, new: Option<Seq<char>>) -> Seq<char> {
    match new {
        Some(s) => s,
        None => old,
    }
}

/// The import page's fields after extracting metadata: title, authors,
/// tags and first level always replaced; year, publisher, summary and the
/// other levels replaced only when the metadata has them.
pub open spec fn import_fields_after(f: ImportFieldsView, m: MetaView) -> ImportFieldsView {
    ImportFieldsView {
        title: m.title,
        authors: join_spec(m.authors, ", "@),
        year: match m.year {
            Some(y) => signed_decimal(y as int),
            None => f.year,
        },
        publisher: keep_or(f.publisher, m.publisher),
        tags: join_spec(m.tags, ", "@),
        summary: keep_or(f.summary, m.summary),
        category1: m.category1,
        category2: keep_or(f.category2, m.category2),
        category3: keep_or(f.category3, m.category3),
    }
}

/// The category used for a file imported without one.
pub open spec fn uncategorized() -> Seq<char> {
    "未分类"@
}

/// The metadata imported from the import page: the year read as a number
/// (none when it is not one), publisher, other levels and summary when not
/// empty, and the uncategorized category when the first level is empty.
pub open spec fn import_metadata(f: ImportFieldsView) -> MetaView {
    MetaView {
        title: f.title,
        authors: comma_items(f.authors),
        year: parse_i32_spec(f.year),
        publisher: nonempty(f.publisher),
        source: None,
        category1: if f.category1.len() == 0 {
            uncategorized()
        } else {
            f.category1
        },
        category2: nonempty(f.category2),
        category3: nonempty(f.category3),
        tags: comma_items(f.tags),
        summary: nonempty(f.summary),
        full_text: None,
        additional_info: Seq::empty(),
    }
}

/// The text of a year.
fn year_text(y: i32) -> (r: String)
    ensures
        r@ == signed_decimal(y as int),
{
    let mut s = String::new();
    push_signed_decimal(&mut s, y as i64);
    s
}

impl ImportFields {
    /// All fields empty (also the state after a successful import).
    pub fn new() -> (r: Self)
        ensures
            r@.title.len() == 0 && r@.authors.len() == 0 && r@.year.len() == 0
                && r@.publisher.len() == 0 && r@.tags.len() == 0 && r@.summary.len() == 0
                && r@.category1.len() == 0 && r@.category2.len() == 0 && r@.category3.len() == 0,
    {
        ImportFields {
            title: String::new(),
            authors: String::new(),
            year: String::new(),
            publisher: String::new(),
            tags: String::new(),
            summary: String::new(),
            category1: String::new(),
            category2: String::new(),
            category3: String::new(),
        }
    }

    /// Fills the fields from extracted metadata.
    pub fn apply_metadata(&mut self, m: &ImportMetadata)
        ensures
            final(self)@ == import_fields_after(old(self)@, m@),
    {
        self.title = m.title.clone();
        self.authors = join_with(&m.authors, ", ");
        match m.year {
            Some(y) => {
                self.year = year_text(y);
            },
            None => {},
        }
        match &m.publisher {
            Some(p) => {
                self.publisher = p.clone();
            },
            None => {},
        }
        self.tags = join_with(&m.tags, ", ");
        match &m.summary {
            Some(s) => {
                self.summary = s.clone();
            },
            None => {},
        }
        self.category1 = m.category1.clone();
        match &m.category2 {
            Some(c) => {
                self.category2 = c.clone();
            },
            None => {},
        }
        match &m.category3 {
            Some(c) => {
                self.category3 = c.clone();
            },
            None => {},
        }
    }

    /// The metadata to import.
    pub fn to_metadata(&self) -> (r: ImportMetadata)
        ensures
            r@ == import_metadata(self@),
    {
        let category1 = if self.category1.as_str().is_empty() {
            "未分类".to_owned()
        } else {
            self.category1.clone()
        };
        let r = ImportMetadata {
            title: self.title.clone(),
            authors: comma_list(self.authors.as_str()),
            year: parse_i32(self.year.as_str()),
            publisher: nonempty_of(&self.publisher),
            source: None,
            category1,
            category2: nonempty_of(&self.category2),
            category3: nonempty_of(&self.category3),
            tags: comma_list(self.tags.as_str()),
            summary: nonempty_of(&self.summary),
            full_text: None,
            additional_info: Vec::new(),
        };
        assert(pair_views(r.additional_info@) =~= Seq::<(Seq<char>, Seq<char>)>::empty());
        r
    }
}

// ---------------------------------------------------------------------------
// The edit and import dialogs
// ---------------------------------------------------------------------------

/// The fields of the edit and import dialogs; the category levels hold the
/// entry chosen in each selector, if any.
#[derive(Clone, Debug)]
pub struct DialogFields {
    pub title: String,
    pub authors: String,
    pub year: String,
    pub publisher: String,
    pub source: String,
    pub tags: String,
    pub summary: String,
    pub category1: Option<String>,
    pub category2: Option<String>,
    pub category3: Option<String>,
}

/// The value of `DialogFields`.
pub struct DialogFieldsView {
    pub title: Seq<char>,
    pub authors: Seq<char>,
    pub year: Seq<char>,
    pub publisher: Seq<char>,
    pub source: Seq<char>,
    pub tags: Seq<char>,
    pub summary: Seq<char>,
    pub category1: Option<Seq<char>>,
    pub category2: Option<Seq<char>>,
    pub category3: Option<Seq<char>>,
}

impl View for DialogFields {
    type V = DialogFieldsView;

    open spec fn view(&self) -> DialogFieldsView {
        DialogFieldsView {
            title: self.title@,
            authors: self.authors@,
            year: self.year@,
            publisher: self.publisher@,
            source: self.source@,
            tags: self.tags@,
            summary: self.summary@,
            category1: opt_view(self.category1),
            category2: opt_view(self.category2),
            category3: opt_view(self.category3),
        }
    }
}

/// Why a dialog's fields are refused.
#[derive(Clone, Copy, Debug, PartialEq, Eq, Structural)]
pub enum FormError {
    /// "Title is required"
    TitleRequired,
    /// "Invalid year format"
    InvalidYear,
}

impl FormError {
    /// The message shown for the error.
    pub fn message(&self) -> (r: &'static str)
        ensures
            r@ == form_error_text(*self),
    {
        match self {
            FormError::TitleRequired => "Title is required",
            FormError::InvalidYear => "Invalid year format",
        }
    }
}

/// The message of a form error.
pub open spec fn form_error_text(e: FormError) -> Seq<char> {
    match e {
        FormError::TitleRequired => "Title is required"@,
        FormError::InvalidYear => "Invalid year format"@,
    }
}

/// The text of an optional year (empty when there is none).
pub open spec fn year_field_text(y: Option<i32>) -> Seq<char> {
    match y {
        Some(v) => signed_decimal(v as int),
        None => Seq::empty(),
    }
}

/// The edit dialog's text fields for a stored file; the category selectors
/// are left as they are.
pub open spec fn dialog_fields_of_file(d: DialogFieldsView, f: StoredFile) -> DialogFieldsView {
    DialogFieldsView {
        title: f.title@,
        authors: join_spec(views(f.authors@), ", "@),
        year: year_field_text(f.year),
        publisher: or_empty(opt_view(f.publisher)),
        source: or_empty(opt_view(f.source)),
        tags: join_spec(views(f.tags@), ", "@),
        summary: or_empty(opt_view(f.summary)),
        ..d
    }
}

/// The import dialog's fields after extracting metadata: title, authors
/// and tags replaced; year, publisher, source and summary replaced only
/// when the metadata has them; the category selectors left as they are.
pub open spec fn dialog_fields_after(d: DialogFieldsView, m: MetaView) -> DialogFieldsView {
    DialogFieldsView {
        title: m.title,
        authors: join_spec(m.authors, ", "@),
        year: match m.year {
            Some(y) => signed_decimal(y as int),
            None => d.year,
        },
        publisher: keep_or(d.publisher, m.publisher),
        source: keep_or(d.source, m.source),
        tags: join_spec(m.tags, ", "@),
        summary: keep_or(d.summary, m.summary),
        ..d
    }
}

/// The year of a dialog: none when the field is empty or not a number.
pub open spec fn dialog_year(y: Seq<char>) -> Option<i32> {
    if y.len() == 0 {
        None
    } else {
        parse_i32_spec(y)
    }
}

/// The metadata read from the edit dialog: publisher, source and summary
/// when not blank (kept untrimmed), the chosen first level or "Default",
/// the chosen other levels.
pub open spec fn dialog_edit_metadata(d: DialogFieldsView) -> MetaView {
    MetaView {
        title: d.title,
        authors: comma_items(d.authors),
        year: dialog_year(d.year),
        publisher: nonblank(d.publisher),
        source: nonblank(d.source),
        category1: match d.category1 {
            Some(c) => c,
            None => "Default"@,
        },
        category2: d.category2,
        category3: d.category3,
        tags: comma_items(d.tags),
        summary: nonblank(d.summary),
        full_text: None,
        additional_info: Seq::empty(),
    }
}

/// The metadata read from the import dialog: as from the edit dialog, but
/// always in the "Default" category.
pub open spec fn dialog_import_metadata(d: DialogFieldsView) -> MetaView {
    MetaView {
        category1: "Default"@,
        category2: None,
        category3: None,
        ..dialog_edit_metadata(d)
    }
}

/// The check of a dialog: a title that is not blank, and a year that is
/// empty or a number.
pub open spec fn dialog_check(d: DialogFieldsView) -> Result<(), FormError> {
    if trim(d.title).len() == 0 {
        Err(FormError::TitleRequired)
    } else if d.year.len() > 0 && parse_i32_spec(d.year) is None {
        Err(FormError::InvalidYear)
    } else {
        Ok(())
    }
}

impl DialogFields {
    /// Empty fields with nothing chosen.
    pub fn new() -> (r: Self)
        ensures
            r@.title.len() == 0 && r@.authors.len() == 0 && r@.year.len() == 0
                && r@.publisher.len() == 0 && r@.source.len() == 0 && r@.tags.len() == 0
                && r@.summary.len() == 0 && r@.category1 is None && r@.category2 is None
                && r@.category3 is None,
    {
        DialogFields {
            title: String::new(),
            authors: String::new(),
            year: String::new(),
            publisher: String::new(),
            source: String::new(),
            tags: String::new(),
            summary: String::new(),
            category1: None,
            category2: None,
            category3: None,
        }
    }

    /// Fills the edit dialog's text fields from a stored file.
    pub fn populate_form(&mut self, file: &StoredFile)
        ensures
            final(self)@ == dialog_fields_of_file(old(self)@, *file),
    {
        self.title = file.title.clone();
        self.authors = join_with(&file.authors, ", ");
        self.year = match file.year {
            Some(y) => year_text(y),
            None => String::new(),
        };
        self.publisher = or_empty_of(&file.publisher);
        self.source = or_empty_of(&file.source);
        self.tags = join_with(&file.tags, ", ");
        self.summary = or_empty_of(&file.summary);
    }

    /// Fills the import dialog's fields from extracted metadata.
    pub fn populate_from_metadata(&mut self, m: &ImportMetadata)
        ensures
            final(self)@ == dialog_fields_after(old(self)@, m@),
    {
        self.title = m.title.clone();
        self.authors = join_with(&m.authors, ", ");
        match m.year {
            Some(y) => {
                self.year = year_text(y);
            },
            None => {},
        }
        match &m.publisher {
            Some(p) => {
                self.publisher = p.clone();
            },
            None => {},
        }
        match &m.source {
            Some(s) => {
                self.source = s.clone();
            },
            None => {},
        }
        self.tags = join_with(&m.tags, ", ");
        match &m.summary {
            Some(s) => {
                self.summary = s.clone();
            },
            None => {},
        }
    }

    /// The metadata of the edit dialog.
    pub fn collect_form_data(&self) -> (r: ImportMetadata)
        ensures
            r@ == dialog_edit_metadata(self@),
    {
        let year = if self.year.as_str().is_empty() {
            None
        } else {
            parse_i32(self.year.as_str())
        };
        let category1 = match &self.category1 {
            Some(c) => c.clone(),
            None => "Default".to_owned(),
        };
        let r = ImportMetadata {
            title: self.title.clone(),
            authors: comma_list(self.authors.as_str()),
            year,
            publisher: nonblank_of(&self.publisher),
            source: nonblank_of(&self.source),
            category1,
            category2: crate::library::copy_opt(&self.category2),
            category3: crate::library::copy_opt(&self.category3),
            tags: comma_list(self.tags.as_str()),
            summary: nonblank_of(&self.summary),
            full_text: None,
            additional_info: Vec::new(),
        };
        assert(pair_views(r.additional_info@) =~= Seq::<(Seq<char>, Seq<char>)>::empty());
        r
    }

    /// The metadata of the import dialog.
    pub fn collect_import_data(&self) -> (r: ImportMetadata)
        ensures
            r@ == dialog_import_metadata(self@),
    {
        let mut r = self.collect_form_data();
        r.category1 = "Default".to_owned();
        r.category2 = None;
        r.category3 = None;
        r
    }

    /// Checks the dialog's fields.
    pub fn validate_form(&self) -> (r: Result<(), FormError>)
        ensures
            r == dialog_check(self@),
    {
        let title = trim_str(self.title.as_str());
        if title.as_str().is_empty() {
            return Err(FormError::TitleRequired);
        }
        if !self.year.as_str().is_empty() && parse_i32(self.year.as_str()).is_none() {
            return Err(FormError::InvalidYear);
        }
        Ok(())
    }
}

// ---------------------------------------------------------------------------
// Update requests
// ---------------------------------------------------------------------------

/// A change to a stored file: each present value replaces the stored one.
#[derive(Clone, Debug)]
pub struct FileUpdateRequest {
    pub title: Option<String>,
    pub authors: Option<Vec<String>>,
    pub year: Option<i32>,
    pub publisher: Option<String>,
    pub source: Option<String>,
    pub category1: Option<String>,
    pub category2: Option<String>,
    pub category3: Option<String>,
    pub tags: Option<Vec<String>>,
    pub summary: Option<String>,
    pub full_text: Option<String>,
    pub is_deleted: Option<bool>,
}

/// The value of a `FileUpdateRequest`.
pub struct UpdateView {
    pub title: Option<Seq<char>>,
    pub authors: Option<Seq<Seq<char>>>,
    pub year: Option<i32>,
    pub publisher: Option<Seq<char>>,
    pub source: Option<Seq<char>>,
    pub category1: Option<Seq<char>>,
    pub category2: Option<Seq<char>>,
    pub category3: Option<Seq<char>>,
    pub tags: Option<Seq<Seq<char>>>,
    pub summary: Option<Seq<char>>,
    pub full_text: Option<Seq<char>>,
    pub is_deleted: Option<bool>,
}

/// The view of an optional list of strings.
pub open spec fn opt_list_view(o: Option<Vec<String>>) -> Option<Seq<Seq<char>>> {
    match o {
        Some(v) => Some(views(v@)),
        None => None,
    }
}

impl View for FileUpdateRequest {
    type V = UpdateView;

    open spec fn view(&self) -> UpdateView {
        UpdateView {
            title: opt_view(self.title),
            authors: opt_list_view(self.authors),
            year: self.year,
            publisher: opt_view(self.publisher),
            source: opt_view(self.source),
            category1: opt_view(self.category1),
            category2: opt_view(self.category2),
            category3: opt_view(self.category3),
            tags: opt_list_view(self.tags),
            summary: opt_view(self.summary),
            full_text: opt_view(self.full_text),
            is_deleted: self.is_deleted,
        }
    }
}

/// A list, or none when it is empty.
pub open spec fn nonempty_list(l: Seq<Seq<char>>) -> Option<Seq<Seq<char>>> {
    if l.len() == 0 {
        None
    } else {
        Some(l)
    }
}

/// The change that saving edited metadata makes: an empty title, author
/// list, first level or tag list leaves the stored value as it is; the
/// other values are passed on; the file is not deleted.
pub open spec fn update_of(m: MetaView) -> UpdateView {
    UpdateView {
        title: nonempty(m.title),
        authors: nonempty_list(m.authors),
        year: m.year,
        publisher: m.publisher,
        source: m.source,
        category1: nonempty(m.category1),
        category2: m.category2,
        category3: m.category3,
        tags: nonempty_list(m.tags),
        summary: m.summary,
        full_text: m.full_text,
        is_deleted: None,
    }
}

/// The change that saves edited metadata.
pub fn update_request(m: ImportMetadata) -> (r: FileUpdateRequest)
    ensures
        r@ == update_of(m@),
{
    let title = if m.title.as_str().is_empty() {
        None
    } else {
        Some(m.title)
    };
    let authors = if m.authors.len() == 0 {
        None
    } else {
        Some(m.authors)
    };
    let category1 = if m.category1.as_str().is_empty() {
        None
    } else {
        Some(m.category1)
    };
    let tags = if m.tags.len() == 0 {
        None
    } else {
        Some(m.tags)
    };
    FileUpdateRequest {
        title,
        authors,
        year: m.year,
        publisher: m.publisher,
        source: m.source,
        category1,
        category2: m.category2,
        category3: m.category3,
        tags,
        summary: m.summary,
        full_text: m.full_text,
        is_deleted: None,
    }
}

/// The change that deletes a file: it is marked deleted, nothing else
/// changes.
pub fn delete_request() -> (r: FileUpdateRequest)
    ensures
        r@ == (UpdateView {
            title: None,
            authors: None,
            year: None,
            publisher: None,
            source: None,
            category1: None,
            category2: None,
            category3: None,
            tags: None,
            summary: None,
            full_text: None,
            is_deleted: Some(true),
        }),
{
    FileUpdateRequest {
        title: None,
        authors: None,
        year: None,
        publisher: None,
        source: None,
        category1: None,
        category2: None,
        category3: None,
        tags: None,
        summary: None,
        full_text: None,
        is_deleted: Some(true),
    }
}

} // verus!

verus! {

// ---------------------------------------------------------------------------
// Lists survive the forms
// ---------------------------------------------------------------------------

/// A list item that a comma-separated field gives back unchanged: not
/// empty, without surrounding white space, without a comma.
pub open spec fn clean_item(x: Seq<char>) -> bool {
    x.len() > 0 && trim(x) == x && !x.contains(',')
}

/// Splitting text that ends in a piece without commas extends the last
/// piece.
proof fn lemma_split_append_plain(a: Seq<char>, b: Seq<char>)
    requires
        !b.contains(','),
    ensures
        split_on(a + b, seq![',']) == split_on(a, seq![',']).update(
            split_on(a, seq![',']).len() - 1,
            split_on(a, seq![',']).last() + b,
        ),
    decreases b.len(),
{
    crate::text::lemma_split_nonempty(a, seq![',']);
    let p = split_on(a, seq![',']);
    if b.len() == 0 {
        assert(a + b =~= a);
        assert(p.last() + b =~= p.last());
        assert(p.update(p.len() - 1, p.last()) =~= p);
    } else {
        let b0 = b.drop_last();
        assert(!b0.contains(',')) by {
            if b0.contains(',') {
                let k = choose|k: int| 0 <= k < b0.len() && b0[k] == ',';
                assert(b[k] == ',');
            }
        }
        lemma_split_append_plain(a, b0);
        assert((a + b).drop_last() =~= a + b0);
        assert((a + b).last() == b.last());
        assert(b.last() != ',') by {
            assert(b[b.len() - 1] == b.last());
        }
        assert(!seq![','].contains(b.last())) by {
            if seq![','].contains(b.last()) {
                let k = choose|k: int| 0 <= k < 1 && seq![','][k] == b.last();
            }
        }
        let q = split_on(a + b0, seq![',']);
        assert(q == p.update(p.len() - 1, p.last() + b0));
        assert(split_on(a + b, seq![',']) == q.update(q.len() - 1, q.last().push(b.last())));
        assert((p.last() + b0).push(b.last()) =~= p.last() + b);
        assert(q.update(q.len() - 1, q.last().push(b.last())) =~= p.update(p.len() - 1, p.last() + b));
    }
}

/// A leading space goes when trimming.
proof fn lemma_trim_leading_space(x: Seq<char>)
    ensures
        trim(seq![' '] + x) == trim(x),
{
    let s = seq![' '] + x;
    assert(crate::text::is_ws(' '));
    assert(s.drop_first() =~= x);
}

/// The split of joined clean items: one piece per item, all but the first
/// with the space of the separator in front.
proof fn lemma_join_split(items: Seq<Seq<char>>)
    requires
        items.len() >= 1,
        forall|i: int| 0 <= i < items.len() ==> clean_item(#[trigger] items[i]),
    ensures
        split_on(join_spec(items, ", "@), seq![',']).len() == items.len(),
        clean_items(split_on(join_spec(items, ", "@), seq![','])) == items,
        split_on(join_spec(items, ", "@), seq![',']).last() == if items.len() == 1 {
            items[0]
        } else {
            seq![' '] + items.last()
        },
    decreases items.len(),
{
    let x = items.last();
    assert(clean_item(items[items.len() - 1]));
    if items.len() == 1 {
        lemma_split_append_plain(Seq::<char>::empty(), x);
        assert(Seq::<char>::empty() + x =~= x);
        assert(Seq::<char>::empty() + x =~= items[0]);
        let p = split_on(items[0], seq![',']);
        assert(p =~= seq![items[0]]);
        assert(p.drop_last() =~= Seq::<Seq<char>>::empty());
        assert(clean_items(Seq::<Seq<char>>::empty()) =~= Seq::<Seq<char>>::empty());
        assert(p.last() == items[0]);
        assert(trim(items[0]) == items[0]);
        assert(clean_items(p) =~= seq![items[0]]);
        assert(items =~= seq![items[0]]);
    } else {
        let rest = items.drop_last();
        assert forall|i: int| 0 <= i < rest.len() implies clean_item(#[trigger] rest[i]) by {
            assert(rest[i] == items[i]);
        }
        lemma_join_split(rest);
        let j = join_spec(rest, ", "@);
        reveal_strlit(", ");
        assert(", "@ =~= seq![',', ' ']);
        let jc = j.push(',');
        let sx = seq![' '] + x;
        assert(join_spec(items, ", "@) =~= jc + sx);
        assert(!sx.contains(',')) by {
            if sx.contains(',') {
                let k = choose|k: int| 0 <= k < sx.len() && sx[k] == ',';
                assert(x[k - 1] == ',');
            }
        }
        assert(jc.drop_last() =~= j);
        assert(seq![','].contains(jc.last())) by {
            assert(seq![','][0] == ',');
        }
        let pj = split_on(j, seq![',']);
        assert(split_on(jc, seq![',']) == pj.push(Seq::<char>::empty()));
        lemma_split_append_plain(jc, sx);
        let pc = split_on(jc, seq![',']);
        assert(pc.last() + sx =~= sx);
        assert(split_on(jc + sx, seq![',']) =~= pj.push(sx));
        lemma_trim_leading_space(x);
        assert(trim(sx) == x);
        let whole = pj.push(sx);
        assert(whole.drop_last() =~= pj);
        assert(clean_items(whole) == clean_items(pj).push(x));
        assert(items =~= rest.push(x));
    }
}

/// Joining clean items with ", " and reading the text back as a
/// comma-separated field gives the same items.
pub proof fn lemma_comma_round_trip(items: Seq<Seq<char>>)
    requires
        forall|i: int| 0 <= i < items.len() ==> clean_item(#[trigger] items[i]),
    ensures
        comma_items(join_spec(items, ", "@)) == items,
{
    if items.len() == 0 {
        let p = split_on(Seq::<char>::empty(), seq![',']);
        assert(p =~= seq![Seq::<char>::empty()]);
        assert(p.drop_last() =~= Seq::<Seq<char>>::empty());
        assert(trim(Seq::<char>::empty()).len() == 0);
        assert(clean_items(Seq::<Seq<char>>::empty()) =~= Seq::<Seq<char>>::empty());
        assert(p.last() == Seq::<char>::empty());
        assert(clean_items(p) =~= Seq::<Seq<char>>::empty());
    } else {
        lemma_join_split(items);
    }
}

/// Opening metadata in the edit page and saving it without changes keeps
/// its authors and tags, when they are clean items.
pub proof fn lemma_edit_page_keeps_lists(m: MetaView)
    requires
        forall|i: int| 0 <= i < m.authors.len() ==> clean_item(#[trigger] m.authors[i]),
        forall|i: int| 0 <= i < m.tags.len() ==> clean_item(#[trigger] m.tags[i]),
    ensures
        edit_metadata(edit_fields_of_meta(m)).authors == m.authors,
        edit_metadata(edit_fields_of_meta(m)).tags == m.tags,
        edit_metadata(edit_fields_of_meta(m)).title == m.title,
        edit_metadata(edit_fields_of_meta(m)).category1 == m.category1,
{
    lemma_comma_round_trip(m.authors);
    lemma_comma_round_trip(m.tags);
}

} // verus!

verus! {

// ---------------------------------------------------------------------------
// How a comma-separated field is read
// ---------------------------------------------------------------------------

/// A text without separators is one piece.
proof fn lemma_split_without_separators(s: Seq<char>, seps: Seq<char>)
    requires
        forall|i: int| 0 <= i < s.len() ==> !seps.contains(#[trigger] s[i]),
    ensures
        split_on(s, seps) == seq![s],
    decreases s.len(),
{
    if s.len() > 0 {
        lemma_split_without_separators(s.drop_last(), seps);
        assert(s.drop_last().push(s.last()) =~= s);
        assert(!seps.contains(s[s.len() - 1]));
        assert(split_on(s, seps) =~= seq![s]);
    } else {
        assert(s =~= Seq::<char>::empty());
    }
}

/// Splitting at a separator between two texts gives the pieces of the one
/// followed by the pieces of the other.
proof fn lemma_split_at_separator(x: Seq<char>, c: char, y: Seq<char>, seps: Seq<char>)
    requires
        seps.contains(c),
    ensures
        split_on(x + seq![c] + y, seps) == split_on(x, seps) + split_on(y, seps),
    decreases y.len(),
{
    let z = x + seq![c] + y;
    if y.len() == 0 {
        assert(z.drop_last() =~= x);
        assert(z.last() == c);
        assert(split_on(z, seps) =~= split_on(x, seps) + split_on(y, seps));
    } else {
        assert(z.drop_last() =~= x + seq![c] + y.drop_last());
        assert(z.last() == y.last());
        lemma_split_at_separator(x, c, y.drop_last(), seps);
        lemma_split_nonempty(y.drop_last(), seps);
        let a = split_on(x, seps);
        let b = split_on(y.drop_last(), seps);
        if seps.contains(y.last()) {
            assert((a + b).push(Seq::<char>::empty()) =~= a + b.push(Seq::<char>::empty()));
        } else {
            assert((a + b).update((a + b).len() - 1, (a + b).last().push(y.last())) =~= a + b.update(
                b.len() - 1,
                b.last().push(y.last()),
            ));
        }
    }
}

/// Cleaning joined pieces cleans each part.
proof fn lemma_clean_items_append(a: Seq<Seq<char>>, b: Seq<Seq<char>>)
    ensures
        clean_items(a + b) == clean_items(a) + clean_items(b),
    decreases b.len(),
{
    if b.len() == 0 {
        assert(a + b =~= a);
        assert(clean_items(a) + clean_items(b) =~= clean_items(a));
    } else {
        assert((a + b).drop_last() =~= a + b.drop_last());
        assert((a + b).last() == b.last());
        lemma_clean_items_append(a, b.drop_last());
        let ra = clean_items(a);
        let rb = clean_items(b.drop_last());
        assert((ra + rb).push(trim(b.last())) =~= ra + rb.push(trim(b.last())));
    }
}

/// The tags collected by the edit dialog are its tags field read the way
/// its authors field is read: every tag is trimmed and non-empty; a field
/// without commas gives its trimmed text as the one tag (none when it is
/// blank); and a field `x,y` gives the tags of `x` followed by those of
/// `y`, so the items between commas are kept, in order.
pub proof fn lemma_dialog_tags(d: DialogFieldsView, x: Seq<char>, y: Seq<char>)
    ensures
        dialog_edit_metadata(d).tags == dialog_edit_metadata(DialogFieldsView { authors: d.tags, ..d }).authors,
        forall|i: int|
            0 <= i < dialog_edit_metadata(d).tags.len() ==> #[trigger] dialog_edit_metadata(d).tags[i].len() > 0
                && trim(dialog_edit_metadata(d).tags[i]) == dialog_edit_metadata(d).tags[i],
        !x.contains(',') ==> dialog_edit_metadata(DialogFieldsView { tags: x, ..d }).tags == if trim(x).len() > 0 {
            seq![trim(x)]
        } else {
            Seq::<Seq<char>>::empty()
        },
        dialog_edit_metadata(DialogFieldsView { tags: x + seq![','] + y, ..d }).tags == dialog_edit_metadata(
            DialogFieldsView { tags: x, ..d },
        ).tags + dialog_edit_metadata(DialogFieldsView { tags: y, ..d }).tags,
{
    let seps = seq![','];
    lemma_list_items_clean(d.tags, seps);
    if !x.contains(',') {
        assert forall|i: int| 0 <= i < x.len() implies !seps.contains(#[trigger] x[i]) by {
            if seps.contains(x[i]) {
                assert(x[i] == ',');
            }
        }
        lemma_split_without_separators(x, seps);
        let one = seq![x];
        assert(one.drop_last() =~= Seq::<Seq<char>>::empty());
        assert(clean_items(Seq::<Seq<char>>::empty()) =~= Seq::<Seq<char>>::empty());
    }
    assert(seps.contains(',')) by {
        assert(seps[0] == ',');
    }
    lemma_split_at_separator(x, ',', y, seps);
    lemma_clean_items_append(split_on(x, seps), split_on(y, seps));
}

} // verus!
