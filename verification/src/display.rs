//! Text shown by the desktop window: the rows of the file list, the
//! status bar's fields, and the file list's context menu.

use vstd::prelude::*;

use crate::library::{opt_view, StoredFile, StoredView};
use crate::metadata::{join_spec, join_with};
use crate::session::AppEvent;
use crate::text::{chars_of, decimal, push_char, push_decimal, push_signed_decimal, push_str, signed_decimal, string_of, views};
use crate::theme::Rgb;

verus! {

broadcast use vstd::string::group_string_axioms;

// ---------------------------------------------------------------------------
// Columns
// ---------------------------------------------------------------------------

/// `n` spaces.
pub open spec fn spaces(n: nat) -> Seq<char> {
    Seq::new(n, |i: int| ' ')
}

/// Text padded with spaces on the right to at least `w` characters
/// (`{:<w}`).
pub open spec fn pad(s: Seq<char>, w: nat) -> Seq<char> {
    if s.len() >= w {
        s
    } else {
        s + spaces((w - s.len()) as nat)
    }
}

/// Text cut to `max` characters, ending in "..." when it was longer.
pub open spec fn truncated(s: Seq<char>, max: nat) -> Seq<char> {
    if s.len() > max {
        s.take(max - 3) + "..."@
    } else {
        s
    }
}

/// Appends `s` padded to `w` characters.
fn push_padded(out: &mut String, s: &Vec<char>, w: usize)
    ensures
        final(out)@ == old(out)@ + pad(s@, w as nat),
{
    crate::text::push_chars(out, s);
    let mut k = s.len();
    let ghost base = old(out)@ + s@;
    while k < w
        invariant
            s@.len() <= k <= w || (k == s@.len() && k >= w),
            out@ == base + spaces((k - s@.len()) as nat),
            base == old(out)@ + s@,
        decreases w - k,
    {
        push_char(out, ' ');
        assert(spaces((k + 1 - s@.len()) as nat) =~= spaces((k - s@.len()) as nat).push(' '));
        k += 1;
    }
    proof {
        if s@.len() >= w {
            assert(spaces(0) =~= Seq::<char>::empty());
            assert(out@ =~= old(out)@ + s@);
        } else {
            assert(out@ =~= old(out)@ + (s@ + spaces((w - s@.len()) as nat)));
        }
    }
}

/// Text cut to `max` characters, ending in "..." when it was longer.
pub fn truncate_string(s: &str, max_len: usize) -> (r: String)
    requires
        max_len >= 3 || s@.len() <= max_len,
    ensures
        r@ == truncated(s@, max_len as nat),
{
    let cs = chars_of(s);
    if cs.len() > max_len {
        let mut r = String::new();
        let mut i: usize = 0;
        while i < max_len - 3
            invariant
                i <= max_len - 3,
                max_len - 3 <= cs@.len(),
                r@ == cs@.take(i as int),
            decreases max_len - 3 - i,
        {
            push_char(&mut r, cs[i]);
            assert(cs@.take(i + 1) =~= cs@.take(i as int).push(cs@[i as int]));
            i += 1;
        }
        push_str(&mut r, "...");
        r
    } else {
        s.to_owned()
    }
}

// ---------------------------------------------------------------------------
// The file list
// ---------------------------------------------------------------------------

/// A row of the file list from its five cells.
pub open spec fn row_of(title: Seq<char>, authors: Seq<char>, year: Seq<char>, tags: Seq<char>, category: Seq<char>) -> Seq<char> {
    pad(title, 40) + " "@ + pad(authors, 25) + " "@ + pad(year, 6) + " "@ + pad(tags, 20) + " "@ + pad(category, 15)
}

/// The title cell: the title, or the original file name when the title is
/// empty, cut to 40 characters.
pub open spec fn title_cell(f: StoredView) -> Seq<char> {
    truncated(if f.title.len() == 0 { f.original_filename } else { f.title }, 40)
}

/// The authors cell: "Unknown", or the authors joined by ", " and cut to 25
/// characters.
pub open spec fn authors_cell(f: StoredView) -> Seq<char> {
    if f.authors.len() == 0 {
        "Unknown"@
    } else {
        truncated(join_spec(f.authors, ", "@), 25)
    }
}

/// The year cell: the year, or "----".
pub open spec fn year_cell(f: StoredView) -> Seq<char> {
    match f.year {
        Some(y) => signed_decimal(y as int),
        None => "----"@,
    }
}

/// The tags cell: "No tags", the only tag, or how many tags there are.
pub open spec fn tags_cell(f: StoredView) -> Seq<char> {
    if f.tags.len() == 0 {
        "No tags"@
    } else if f.tags.len() == 1 {
        f.tags[0]
    } else {
        decimal(f.tags.len()) + " tags"@
    }
}

/// The category cell: "Uncategorized", or the first level cut to 15
/// characters.
pub open spec fn category_cell(f: StoredView) -> Seq<char> {
    if f.category1.len() == 0 {
        "Uncategorized"@
    } else {
        truncated(f.category1, 15)
    }
}

/// The file list's row for a file.
pub open spec fn file_row_spec(f: StoredView) -> Seq<char> {
    row_of(title_cell(f), authors_cell(f), year_cell(f), tags_cell(f), category_cell(f))
}

/// The file list's header row.
pub open spec fn header_row() -> Seq<char> {
    row_of("Title"@, "Authors"@, "Year"@, "Tags"@, "Category"@)
}

/// A row from its five cells.
fn row_text(title: &str, authors: &str, year: &str, tags: &str, category: &str) -> (r: String)
    ensures
        r@ == row_of(title@, authors@, year@, tags@, category@),
{
    let mut r = String::new();
    push_padded(&mut r, &chars_of(title), 40);
    push_str(&mut r, " ");
    push_padded(&mut r, &chars_of(authors), 25);
    push_str(&mut r, " ");
    push_padded(&mut r, &chars_of(year), 6);
    push_str(&mut r, " ");
    push_padded(&mut r, &chars_of(tags), 20);
    push_str(&mut r, " ");
    push_padded(&mut r, &chars_of(category), 15);
    r
}

/// The file list's header row.
pub fn header_text() -> (r: String)
    ensures
        r@ == header_row(),
{
    row_text("Title", "Authors", "Year", "Tags", "Category")
}

/// The file list's row for a file.
pub fn file_row(f: &StoredFile) -> (r: String)
    ensures
        r@ == file_row_spec(f@),
{
    let title = if f.title.as_str().is_empty() {
        truncate_string(f.original_filename.as_str(), 40)
    } else {
        truncate_string(f.title.as_str(), 40)
    };
    let authors = if f.authors.len() == 0 {
        "Unknown".to_owned()
    } else {
        let joined = join_with(&f.authors, ", ");
        truncate_string(joined.as_str(), 25)
    };
    let year = match f.year {
        Some(y) => {
            let mut s = String::new();
            push_signed_decimal(&mut s, y as i64);
            s
        },
        None => "----".to_owned(),
    };
    let tags = if f.tags.len() == 0 {
        "No tags".to_owned()
    } else if f.tags.len() == 1 {
        f.tags[0].clone()
    } else {
        let mut s = String::new();
        push_decimal(&mut s, f.tags.len() as u64);
        push_str(&mut s, " tags");
        s
    };
    let category = if f.category1.as_str().is_empty() {
        "Uncategorized".to_owned()
    } else {
        truncate_string(f.category1.as_str(), 15)
    };
    row_text(title.as_str(), authors.as_str(), year.as_str(), tags.as_str(), category.as_str())
}

/// The lines of the file list: the header, a separator, then one row per
/// file, or a hint when there are no files.
pub open spec fn list_lines_spec(fs: Seq<StoredView>) -> Seq<Seq<char>> {
    seq![header_row(), "@-"@] + if fs.len() == 0 {
        seq!["No files found. Try a different search or import some files."@]
    } else {
        fs.map_values(|f: StoredView| file_row_spec(f))
    }
}

/// The lines of the file list.
pub fn list_lines(files: &Vec<StoredFile>) -> (r: Vec<String>)
    ensures
        views(r@) == list_lines_spec(crate::session::stored_file_views(files@)),
{
    let mut r: Vec<String> = Vec::new();
    r.push(header_text());
    r.push("@-".to_owned());
    let ghost start = views(r@);
    assert(start =~= seq![header_row(), "@-"@]);
    if files.len() == 0 {
        r.push("No files found. Try a different search or import some files.".to_owned());
        assert(views(r@) =~= list_lines_spec(crate::session::stored_file_views(files@)));
        return r;
    }
    let ghost fs = crate::session::stored_file_views(files@);
    let mut i: usize = 0;
    while i < files.len()
        invariant
            i <= files.len(),
            fs == crate::session::stored_file_views(files@),
            views(r@) == start + fs.take(i as int).map_values(|f: StoredView| file_row_spec(f)),
        decreases files.len() - i,
    {
        let row = file_row(&files[i]);
        let ghost before = views(r@);
        r.push(row);
        assert(views(r@) =~= before.push(row@));
        assert(fs.take(i + 1) =~= fs.take(i as int).push(fs[i as int]));
        assert(views(r@) =~= start + fs.take(i + 1).map_values(|f: StoredView| file_row_spec(f)));
        i += 1;
    }
    assert(fs.take(files.len() as int) =~= fs);
    r
}

/// The fields of the preview panel.
#[derive(Clone, Debug)]
pub struct PreviewDetails {
    pub title: String,
    pub path: String,
    pub authors: String,
    pub year: String,
    pub publisher: String,
    pub tags: String,
    pub summary: String,
}

/// The values of the preview panel's fields: title, path, authors, year,
/// publisher, tags and summary.
pub open spec fn preview_spec(f: StoredView) -> (Seq<char>, Seq<char>, Seq<char>, Seq<char>, Seq<char>, Seq<char>, Seq<char>) {
    (
        if f.title.len() == 0 { f.original_filename } else { f.title },
        f.path,
        join_spec(f.authors, ", "@),
        match f.year {
            Some(y) => signed_decimal(y as int),
            None => "N/A"@,
        },
        match f.publisher {
            Some(p) => p,
            None => "N/A"@,
        },
        if f.tags.len() == 0 { "No tags"@ } else { join_spec(f.tags, ", "@) },
        match f.summary {
            Some(s) => s,
            None => "No summary available"@,
        },
    )
}

/// The values of the preview panel's fields.
pub open spec fn preview_values(d: PreviewDetails) -> (Seq<char>, Seq<char>, Seq<char>, Seq<char>, Seq<char>, Seq<char>, Seq<char>) {
    (d.title@, d.path@, d.authors@, d.year@, d.publisher@, d.tags@, d.summary@)
}

/// The preview panel for a file: the title (the original file name when
/// the title is empty), path, authors joined by ", ", year or "N/A",
/// publisher or "N/A", tags joined by ", " or "No tags", and summary or "No
/// summary available".
pub fn preview_details(f: &StoredFile) -> (r: PreviewDetails)
    ensures
        preview_values(r) == preview_spec(f@),
{
    let title = if f.title.as_str().is_empty() {
        f.original_filename.clone()
    } else {
        f.title.clone()
    };
    let year = match f.year {
        Some(y) => {
            let mut s = String::new();
            push_signed_decimal(&mut s, y as i64);
            s
        },
        None => "N/A".to_owned(),
    };
    let publisher = match &f.publisher {
        Some(p) => p.clone(),
        None => "N/A".to_owned(),
    };
    let tags = if f.tags.len() == 0 {
        "No tags".to_owned()
    } else {
        join_with(&f.tags, ", ")
    };
    let summary = match &f.summary {
        Some(s) => s.clone(),
        None => "No summary available".to_owned(),
    };
    PreviewDetails { title, path: f.path.clone(), authors: join_with(&f.authors, ", "), year, publisher, tags, summary }
}

/// The preview panel with no file: "No file selected" and empty fields.
pub fn empty_preview() -> (r: PreviewDetails)
    ensures
        preview_values(r) == ("No file selected"@, Seq::<char>::empty(), Seq::<char>::empty(), Seq::<char>::empty(), Seq::<char>::empty(), Seq::<char>::empty(), Seq::<char>::empty()),
{
    PreviewDetails {
        title: "No file selected".to_owned(),
        path: String::new(),
        authors: String::new(),
        year: String::new(),
        publisher: String::new(),
        tags: String::new(),
        summary: String::new(),
    }
}

/// What a choice in the file list's context menu leads to.
#[derive(Clone, Debug)]
pub enum MenuOutcome {
    /// Raise the event.
    Send(AppEvent),
    /// Ask the question; on yes, raise the event.
    Confirm(String, AppEvent),
}

/// The reference to the file at a position of the list.
pub open spec fn index_ref(i: nat) -> Seq<char> {
    "index:"@ + decimal(i)
}

/// The reference a click on a line of the file list selects: lines count
/// from 1, the header and separator take the first two, so line `n` (above
/// 2) shows the file at position `n - 3`.
pub open spec fn selection_ref(line: int) -> Option<Seq<char>> {
    if line > 2 {
        Some(index_ref((line - 3) as nat))
    } else {
        None
    }
}

/// The event of clicking a line of the file list: selecting the file it
/// shows, nothing for the header and separator.
pub fn list_selection_event(line: i32) -> (r: Option<AppEvent>)
    ensures
        match r {
            Some(AppEvent::FileSelected(s)) => selection_ref(line as int) == Some(s@),
            Some(_) => false,
            None => selection_ref(line as int) is None,
        },
{
    if line > 2 {
        let mut reference = String::new();
        push_str(&mut reference, "index:");
        push_decimal(&mut reference, (line - 3) as u64);
        Some(AppEvent::FileSelected(reference))
    } else {
        None
    }
}

/// The position of the file under a right click on a line of the list,
/// when the line shows one of the files.
pub fn context_menu_index(line: i32, file_count: usize) -> (r: Option<usize>)
    ensures
        r == if line > 2 && line - 3 < file_count {
            Some((line - 3) as usize)
        } else {
            None::<usize>
        },
{
    if line > 2 && ((line - 3) as u64) < (file_count as u64) {
        Some((line - 3) as usize)
    } else {
        None
    }
}

/// The event of a choice in the file list's context menu (open, edit,
/// copy path, show in folder, delete after confirmation), for the file at
/// a position.
pub fn file_menu_choice(index: usize, choice: usize) -> (r: Option<MenuOutcome>)
    ensures
        match r {
            None => choice > 4,
            Some(MenuOutcome::Send(e)) => choice < 4 && match e {
                AppEvent::OpenFile(s) => choice == 0 && s@ == index_ref(index as nat),
                AppEvent::EditFile(s) => choice == 1 && s@ == index_ref(index as nat),
                AppEvent::CopyFilePath(s) => choice == 2 && s@ == index_ref(index as nat),
                AppEvent::ShowInFolder(s) => choice == 3 && s@ == index_ref(index as nat),
                _ => false,
            },
            Some(MenuOutcome::Confirm(q, e)) => choice == 4 && q@ == "Remove this file from TagBox?"@ && match e {
                AppEvent::DeleteFile(s) => s@ == index_ref(index as nat),
                _ => false,
            },
        },
{
    let mut reference = String::new();
    push_str(&mut reference, "index:");
    push_decimal(&mut reference, index as u64);
    match choice {
        0 => Some(MenuOutcome::Send(AppEvent::OpenFile(reference))),
        1 => Some(MenuOutcome::Send(AppEvent::EditFile(reference))),
        2 => Some(MenuOutcome::Send(AppEvent::CopyFilePath(reference))),
        3 => Some(MenuOutcome::Send(AppEvent::ShowInFolder(reference))),
        4 => Some(MenuOutcome::Confirm("Remove this file from TagBox?".to_owned(), AppEvent::DeleteFile(reference))),
        _ => None,
    }
}

// ---------------------------------------------------------------------------
// The status bar
// ---------------------------------------------------------------------------

/// The file count field: "Files: visible/total", or "Files: total".
pub open spec fn file_count_spec(total: nat, visible: Option<usize>) -> Seq<char> {
    match visible {
        Some(v) => "Files: "@ + decimal(v as nat) + "/"@ + decimal(total),
        None => "Files: "@ + decimal(total),
    }
}

/// The file count field.
pub fn file_count_text(total: usize, visible: Option<usize>) -> (r: String)
    ensures
        r@ == file_count_spec(total as nat, visible),
{
    let mut r = String::new();
    push_str(&mut r, "Files: ");
    match visible {
        Some(v) => {
            push_decimal(&mut r, v as u64);
            push_str(&mut r, "/");
        },
        None => {},
    }
    push_decimal(&mut r, total as u64);
    r
}

/// The selection field: "Selected: n".
pub fn selected_count_text(count: usize) -> (r: String)
    ensures
        r@ == "Selected: "@ + decimal(count as nat),
{
    let mut r = String::new();
    push_str(&mut r, "Selected: ");
    push_decimal(&mut r, count as u64);
    r
}

/// The configuration field and its tooltip: the configuration file's name
/// (or "config.toml" when the path has none) and its path, or that none is
/// loaded.
pub open spec fn config_status_spec(path: Option<Seq<char>>) -> (Seq<char>, Seq<char>) {
    match path {
        Some(p) => (
            "Config: "@ + match crate::paths::path_file_name(p) {
                Some(n) => n,
                None => "config.toml"@,
            },
            "Configuration: "@ + p,
        ),
        None => ("Config: None"@, "No configuration file loaded"@),
    }
}

/// The configuration field and its tooltip.
pub fn config_status_text(path: Option<&str>) -> (r: (String, String))
    ensures
        (r.0@, r.1@) == config_status_spec(match path {
            Some(p) => Some(p@),
            None => None,
        }),
{
    match path {
        Some(p) => {
            let name = match crate::paths::file_name_of(p) {
                Some(n) => n,
                None => "config.toml".to_owned(),
            };
            let mut field = String::new();
            push_str(&mut field, "Config: ");
            push_str(&mut field, name.as_str());
            let mut tip = String::new();
            push_str(&mut tip, "Configuration: ");
            push_str(&mut tip, p);
            (field, tip)
        },
        None => ("Config: None".to_owned(), "No configuration file loaded".to_owned()),
    }
}

/// The colour of the configuration field: green when a configuration is
/// loaded, red otherwise.
pub fn config_status_color(loaded: bool) -> (r: Rgb)
    ensures
        r == if loaded { Rgb { r: 100, g: 200, b: 100 } } else { Rgb { r: 200, g: 100, b: 100 } },
{
    if loaded {
        Rgb { r: 100, g: 200, b: 100 }
    } else {
        Rgb { r: 200, g: 100, b: 100 }
    }
}

/// The colour of the log level field: by the level's name in capitals.
pub open spec fn log_level_color_spec(upper: Seq<char>) -> Rgb {
    if upper == "ERROR"@ {
        Rgb { r: 220, g: 53, b: 69 }
    } else if upper == "WARN"@ {
        Rgb { r: 255, g: 193, b: 7 }
    } else if upper == "INFO"@ {
        Rgb { r: 23, g: 162, b: 184 }
    } else if upper == "DEBUG"@ || upper == "TRACE"@ {
        Rgb { r: 108, g: 117, b: 125 }
    } else {
        Rgb { r: 0, g: 0, b: 0 }
    }
}

/// What `str::to_uppercase` gives for a string (Unicode upper-casing).
pub uninterp spec fn uppercase(s: Seq<char>) -> Seq<char>;

/// `str::to_uppercase`. The result depends on the argument alone; the
/// mapping itself is not restated here.
#[verifier::external_body]
fn to_uppercase(s: &str) -> (r: String)
    ensures
        r@ == uppercase(s@),
{
    s.to_uppercase()
}

/// The log level field and its colour: "Log: level".
pub fn log_level_text(level: &str) -> (r: (String, Rgb))
    ensures
        r.0@ == "Log: "@ + level@,
        r.1 == log_level_color_spec(uppercase(level@)),
{
    let mut field = String::new();
    push_str(&mut field, "Log: ");
    push_str(&mut field, level);
    let up = to_uppercase(level);
    let u = up.as_str();
    let color = if crate::text::str_eq(u, "ERROR") {
        Rgb { r: 220, g: 53, b: 69 }
    } else if crate::text::str_eq(u, "WARN") {
        Rgb { r: 255, g: 193, b: 7 }
    } else if crate::text::str_eq(u, "INFO") {
        Rgb { r: 23, g: 162, b: 184 }
    } else if crate::text::str_eq(u, "DEBUG") || crate::text::str_eq(u, "TRACE") {
        Rgb { r: 108, g: 117, b: 125 }
    } else {
        Rgb { r: 0, g: 0, b: 0 }
    };
    (field, color)
}

/// The database field and its colour.
pub fn database_status_text(connected: bool) -> (r: (&'static str, Rgb))
    ensures
        connected ==> r.0@ == "DB: Connected"@ && r.1 == (Rgb { r: 100, g: 200, b: 100 }),
        !connected ==> r.0@ == "DB: Disconnected"@ && r.1 == (Rgb { r: 200, g: 100, b: 100 }),
{
    if connected {
        ("DB: Connected", Rgb { r: 100, g: 200, b: 100 })
    } else {
        ("DB: Disconnected", Rgb { r: 200, g: 100, b: 100 })
    }
}

/// The state of the last search, as the status bar shows it.
#[derive(Clone, Debug)]
pub enum SearchStatus {
    Ready,
    Searching,
    Results(usize),
    NoResults,
    Error(String),
}

/// The search field and its colour.
pub open spec fn search_status_spec(s: SearchStatus) -> (Seq<char>, Rgb) {
    match s {
        SearchStatus::Ready => ("Search: Ready"@, Rgb { r: 0, g: 0, b: 0 }),
        SearchStatus::Searching => ("Search: Searching..."@, Rgb { r: 23, g: 162, b: 184 }),
        SearchStatus::Results(n) => ("Search: "@ + decimal(n as nat) + " results"@, Rgb { r: 100, g: 200, b: 100 }),
        SearchStatus::NoResults => ("Search: No results"@, Rgb { r: 255, g: 193, b: 7 }),
        SearchStatus::Error(m) => ("Search: Error - "@ + m@, Rgb { r: 220, g: 53, b: 69 }),
    }
}

/// The search field and its colour.
pub fn search_status_text(s: &SearchStatus) -> (r: (String, Rgb))
    ensures
        (r.0@, r.1) == search_status_spec(*s),
{
    match s {
        SearchStatus::Ready => ("Search: Ready".to_owned(), Rgb { r: 0, g: 0, b: 0 }),
        SearchStatus::Searching => ("Search: Searching...".to_owned(), Rgb { r: 23, g: 162, b: 184 }),
        SearchStatus::Results(n) => {
            let mut t = String::new();
            push_str(&mut t, "Search: ");
            push_decimal(&mut t, *n as u64);
            push_str(&mut t, " results");
            (t, Rgb { r: 100, g: 200, b: 100 })
        },
        SearchStatus::NoResults => ("Search: No results".to_owned(), Rgb { r: 255, g: 193, b: 7 }),
        SearchStatus::Error(m) => {
            let mut t = String::new();
            push_str(&mut t, "Search: Error - ");
            push_str(&mut t, m.as_str());
            (t, Rgb { r: 220, g: 53, b: 69 })
        },
    }
}

/// The colour of a status message: red for an error, green otherwise.
pub fn message_color(is_error: bool) -> (r: Rgb)
    ensures
        r == if is_error { Rgb { r: 220, g: 53, b: 69 } } else { Rgb { r: 25, g: 135, b: 84 } },
{
    if is_error {
        Rgb { r: 220, g: 53, b: 69 }
    } else {
        Rgb { r: 25, g: 135, b: 84 }
    }
}

/// The status message while loading (the given message, or "Loading...")
/// and after it ("Ready").
pub fn loading_status_text(loading: bool, message: Option<&str>) -> (r: String)
    ensures
        r@ == if loading {
            match message {
                Some(m) => m@,
                None => "Loading..."@,
            }
        } else {
            "Ready"@
        },
{
    if loading {
        match message {
            Some(m) => m.to_owned(),
            None => "Loading...".to_owned(),
        }
    } else {
        "Ready".to_owned()
    }
}

/// The status message of an error: "Error: " and the error.
pub fn error_status_text(error: &str) -> (r: String)
    ensures
        r@ == "Error: "@ + error@,
{
    let mut r = String::new();
    push_str(&mut r, "Error: ");
    push_str(&mut r, error);
    r
}

/// The status message of a success: "✓ " and the message.
pub fn success_status_text(message: &str) -> (r: String)
    ensures
        r@ == "✓ "@ + message@,
{
    let mut r = String::new();
    push_str(&mut r, "✓ ");
    push_str(&mut r, message);
    r
}

} // verus!

verus! {

/// A reference the file list's context menu makes to the file at a
/// position names that file again when the window looks it up.
pub proof fn lemma_index_ref_round_trip(files: Seq<StoredView>, i: usize)
    requires
        i < files.len(),
    ensures
        crate::session::file_ref_index(files, index_ref(i as nat)) == Some(i as int),
{
    let r = index_ref(i as nat);
    reveal_strlit("index:");
    assert("index:"@.len() == 6);
    assert(r.take(6) =~= "index:"@);
    assert(r.skip(6) =~= decimal(i as nat));
    crate::text::lemma_parse_decimal_roundtrip(i);
}

/// A truncated text is never longer than the limit.
pub proof fn lemma_truncated_fits(s: Seq<char>, max: nat)
    requires
        max >= 3,
    ensures
        truncated(s, max).len() <= max,
        s.len() <= max ==> truncated(s, max) == s,
{
    reveal_strlit("...");
    assert("..."@.len() == 3);
}

/// A padded text is at least as wide as asked and starts with the text.
pub proof fn lemma_pad_width(s: Seq<char>, w: nat)
    ensures
        pad(s, w).len() >= w,
        pad(s, w).len() >= s.len(),
        pad(s, w).take(s.len() as int) == s,
{
    assert(pad(s, w).take(s.len() as int) =~= s);
}

/// Clicking the line that shows a file selects that file: the list shows
/// file `i` on line `i + 3` (counting from 1), and the reference the click
/// raises names file `i` again when the window looks it up.
pub proof fn lemma_clicked_line_selects_its_file(files: Seq<StoredView>, i: usize)
    requires
        i < files.len(),
    ensures
        list_lines_spec(files)[i + 2] == file_row_spec(files[i as int]),
        selection_ref(i + 3) == Some(index_ref(i as nat)),
        crate::session::file_ref_index(files, index_ref(i as nat)) == Some(i as int),
{
    lemma_index_ref_round_trip(files, i);
    let rows = files.map_values(|f: StoredView| file_row_spec(f));
    assert(list_lines_spec(files) == seq![header_row(), "@-"@] + rows);
    assert(list_lines_spec(files)[i + 2] == rows[i as int]);
}

} // verus!
