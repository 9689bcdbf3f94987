//! File paths: the folder to open for a path, the folder that shows a file,
//! the paths in dropped text, and which files can be imported.

use vstd::prelude::*;

use crate::library::opt_view;
use crate::text::{
    chars_of, has_prefix, lines, lines_of, lowercase, string_of, to_lowercase, trim, trim_chars,
};

verus! {

broadcast use vstd::string::group_string_axioms;

// ---------------------------------------------------------------------------
// Components of a path
// ---------------------------------------------------------------------------

/// What `Path::parent` gives for a path: the path without its last
/// component, or none for a root, a prefix or the empty path.
pub uninterp spec fn path_parent(p: Seq<char>) -> Option<Seq<char>>;

/// `Path::parent`, as text. The result depends on the path alone, under
/// the path rules of the platform the crate is built for (on Unix, `/`
/// separates components); those rules (separators, `.` components) are not
/// restated here.
#[verifier::external_body]
fn parent_of(path: &str) -> (r: Option<String>)
    ensures
        opt_view(r) == path_parent(path@),
{
    match std::path::Path::new(path).parent() {
        Some(p) => Some(p.to_string_lossy().into_owned()),
        None => None,
    }
}

/// What `Path::extension` gives for a path: the part of the file name after
/// its last dot, if the name has a dot that does not start it.
pub uninterp spec fn path_extension(p: Seq<char>) -> Option<Seq<char>>;

/// `Path::extension`, as text. The result depends on the path alone, under
/// the path rules of the platform the crate is built for.
#[verifier::external_body]
pub(crate) fn extension_name(path: &str) -> (r: Option<String>)
    ensures
        opt_view(r) == path_extension(path@),
{
    match std::path::Path::new(path).extension() {
        Some(e) => Some(e.to_string_lossy().into_owned()),
        None => None,
    }
}

/// What `Path::file_name` gives for a path: its last component when that
/// is a name (not a root, `.` or `..`).
pub uninterp spec fn path_file_name(p: Seq<char>) -> Option<Seq<char>>;

/// `Path::file_name`, as text. The result depends on the path alone, under
/// the path rules of the platform the crate is built for.
#[verifier::external_body]
pub(crate) fn file_name_of(path: &str) -> (r: Option<String>)
    ensures
        opt_view(r) == path_file_name(path@),
{
    match std::path::Path::new(path).file_name() {
        Some(n) => Some(n.to_string_lossy().into_owned()),
        None => None,
    }
}

/// `Path::exists`: whether something is at the path now. Nothing is
/// claimed of the result: it depends on the disk.
#[verifier::external_body]
fn path_exists(path: &str) -> (r: bool) {
    std::path::Path::new(path).exists()
}

/// `Path::is_file`: whether a regular file is at the path now. Nothing is
/// claimed of the result: it depends on the disk.
#[verifier::external_body]
fn path_is_file(path: &str) -> (r: bool) {
    std::path::Path::new(path).is_file()
}

// ---------------------------------------------------------------------------
// The folder of a path
// ---------------------------------------------------------------------------

/// Whether a path names a folder by its form: it is empty or ends with a
/// separator.
pub open spec fn folder_form(p: Seq<char>) -> bool {
    p.len() == 0 || p.last() == '/'
}

/// The folder to open for a path, given what is on disk there (`Some(true)`
/// for a file, `Some(false)` for anything else, `None` when nothing is
/// there): a file's parent folder, any other existing thing itself, and for
/// a path that does not exist, the path itself when it has the form of a
/// folder and its parent otherwise.
pub open spec fn parent_folder(p: Seq<char>, on_disk: Option<bool>) -> Option<Seq<char>> {
    match on_disk {
        Some(true) => path_parent(p),
        Some(false) => Some(p),
        None => if folder_form(p) {
            Some(p)
        } else {
            path_parent(p)
        },
    }
}

/// The folder to open for a path, given what is on disk there.
pub fn parent_folder_of(path: &str, on_disk: Option<bool>) -> (r: Option<String>)
    ensures
        opt_view(r) == parent_folder(path@, on_disk),
{
    let as_folder = match on_disk {
        Some(is_file) => !is_file,
        None => {
            let cs = chars_of(path);
            cs.len() == 0 || cs[cs.len() - 1] == '/'
        },
    };
    if as_folder {
        Some(path.to_owned())
    } else {
        parent_of(path)
    }
}

/// The folder of a file: for a file, the folder that holds it; for a
/// folder, the folder itself; for a path where nothing is, decided by the
/// path's form.
pub fn get_parent_folder(path: &str) -> (r: Option<String>)
    ensures
        opt_view(r) == parent_folder(path@, Some(true)) || opt_view(r) == parent_folder(
            path@,
            Some(false),
        ) || opt_view(r) == parent_folder(path@, None),
{
    let on_disk = if path_exists(path) {
        Some(path_is_file(path))
    } else {
        None
    };
    parent_folder_of(path, on_disk)
}

/// The folder to show a file in: its parent, or the path itself when it
/// has none.
pub fn reveal_folder(path: &str) -> (r: String)
    ensures
        r@ == match path_parent(path@) {
            Some(p) => p,
            None => path@,
        },
{
    match parent_of(path) {
        Some(p) => p,
        None => path.to_owned(),
    }
}

/// The programs tried in turn to show a folder on Linux: the desktop's
/// opener first, then the common file managers.
pub fn reveal_programs() -> (r: Vec<&'static str>)
    ensures
        r@.len() == 6,
        r@[0]@ == "xdg-open"@,
        r@[1]@ == "nautilus"@,
        r@[2]@ == "dolphin"@,
        r@[3]@ == "thunar"@,
        r@[4]@ == "pcmanfm"@,
        r@[5]@ == "nemo"@,
{
    vec!["xdg-open", "nautilus", "dolphin", "thunar", "pcmanfm", "nemo"]
}

/// Whether an extension is "pdf" in any mix of upper and lower case (ASCII
/// case folding).
pub open spec fn pdf_extension(e: Seq<char>) -> bool {
    &&& e.len() == 3
    &&& (e[0] == 'p' || e[0] == 'P')
    &&& (e[1] == 'd' || e[1] == 'D')
    &&& (e[2] == 'f' || e[2] == 'F')
}

/// Whether a path names a PDF file by its extension.
pub fn is_pdf_path(path: &str) -> (r: bool)
    ensures
        r == match path_extension(path@) {
            Some(e) => pdf_extension(e),
            None => false,
        },
{
    match extension_name(path) {
        Some(e) => {
            let cs = chars_of(e.as_str());
            cs.len() == 3 && (cs[0] == 'p' || cs[0] == 'P') && (cs[1] == 'd' || cs[1] == 'D') && (cs[2] == 'f'
                || cs[2] == 'F')
        },
        None => false,
    }
}

/// A file operation requested from the interface.
#[derive(Clone, Debug)]
pub enum FileOperation {
    /// Open the file with the program the system associates with it.
    Open(String),
    /// Show the file in the system's file manager.
    RevealInFolder(String),
}

/// The path that an operation hands to the system: the file itself to open
/// it, the folder that holds it to show it.
pub fn operation_target(op: &FileOperation) -> (r: String)
    ensures
        r@ == match op {
            FileOperation::Open(p) => p@,
            FileOperation::RevealInFolder(p) => match path_parent(p@) {
                Some(q) => q,
                None => p@,
            },
        },
{
    match op {
        FileOperation::Open(p) => p.clone(),
        FileOperation::RevealInFolder(p) => reveal_folder(p.as_str()),
    }
}

// ---------------------------------------------------------------------------
// Dropped files
// ---------------------------------------------------------------------------

/// A dropped line as a path: trimmed, without a `file://` prefix.
pub open spec fn dropped_path(line: Seq<char>) -> Seq<char> {
    let t = trim(line);
    if has_prefix(t, "file://"@) {
        t.skip(7)
    } else {
        t
    }
}

/// The candidate paths in dropped text: one per line that is not blank.
pub open spec fn dropped_paths(text: Seq<char>) -> Seq<Seq<char>> {
    lines_of(text).filter(|l: Seq<char>| trim(l).len() > 0).map_values(
        |l: Seq<char>| dropped_path(l),
    )
}

/// The candidate paths in dropped text, in order (whether anything is at
/// them is for the caller to check).
pub fn parse_drag_data(text: &str) -> (r: Vec<String>)
    ensures
        crate::text::views(r@) == dropped_paths(text@),
{
    let cs = chars_of(text);
    let ls = lines(&cs);
    let ghost all = lines_of(text@);
    let ghost keep = |l: Seq<char>| trim(l).len() > 0;
    let ghost conv = |l: Seq<char>| dropped_path(l);
    let prefix = chars_of("file://");
    let mut r: Vec<String> = Vec::new();
    let mut i: usize = 0;
    while i < ls.len()
        invariant
            i <= ls.len(),
            crate::text::char_views(ls@) == all,
            prefix@ == "file://"@,
            crate::text::views(r@) == all.take(i as int).filter(keep).map_values(conv),
            keep == (|l: Seq<char>| trim(l).len() > 0),
            conv == (|l: Seq<char>| dropped_path(l)),
        decreases ls.len() - i,
    {
        let t = trim_chars(&ls[i]);
        assert(all[i as int] == ls@[i as int]@);
        assert(all.take(i + 1).drop_last() =~= all.take(i as int));
        reveal(Seq::filter);
        if t.len() > 0 {
            let p = if crate::text::starts_with_chars(&t, &prefix) {
                proof {
                    reveal_strlit("file://");
                }
                assert(t@.len() >= 7);
                let mut q: Vec<char> = Vec::new();
                let mut k: usize = 7;
                assert(q@ =~= t@.subrange(7, 7));
                while k < t.len()
                    invariant
                        7 <= k <= t.len(),
                        q@ == t@.subrange(7, k as int),
                    decreases t.len() - k,
                {
                    q.push(t[k]);
                    assert(t@.subrange(7, k + 1) =~= t@.subrange(7, k as int).push(t@[k as int]));
                    k += 1;
                }
                assert(t@.skip(7) =~= t@.subrange(7, t@.len() as int));
                q
            } else {
                t
            };
            let s = string_of(&p);
            let ghost before = crate::text::views(r@);
            r.push(s);
            assert(crate::text::views(r@) =~= before.push(s@));
            assert(all.take(i + 1).filter(keep) =~= all.take(i as int).filter(keep).push(
                all[i as int],
            ));
        } else {
            assert(all.take(i + 1).filter(keep) =~= all.take(i as int).filter(keep));
        }
        i += 1;
    }
    assert(all.take(ls.len() as int) =~= all);
    r
}

/// The extensions of the file kinds that can be imported.
pub open spec fn supported_extension(e: Seq<char>) -> bool {
    e == "pdf"@ || e == "epub"@ || e == "txt"@ || e == "md"@ || e == "doc"@ || e == "docx"@ || e
        == "rtf"@ || e == "html"@ || e == "htm"@ || e == "odt"@ || e == "mobi"@ || e == "azw"@
        || e == "azw3"@
}

/// Whether a file can be imported: by its extension (in any case) when it
/// has one; otherwise when it is a regular file under 50 MiB, given what is
/// on disk there (`Some((is_file, length))`, or `None` when that cannot be
/// read).
pub open spec fn supported_file(path: Seq<char>, on_disk: Option<(bool, u64)>) -> bool {
    match path_extension(path) {
        Some(e) => supported_extension(lowercase(e)),
        None => match on_disk {
            Some((is_file, len)) => is_file && len < 52428800,
            None => false,
        },
    }
}

/// Whether a file can be imported.
pub fn is_supported_file(path: &str, on_disk: Option<(bool, u64)>) -> (r: bool)
    ensures
        r == supported_file(path@, on_disk),
{
    match extension_name(path) {
        Some(e) => {
            let low = to_lowercase(e.as_str());
            let l = low.as_str();
            crate::text::str_eq(l, "pdf") || crate::text::str_eq(l, "epub") || crate::text::str_eq(
                l,
                "txt",
            ) || crate::text::str_eq(l, "md") || crate::text::str_eq(l, "doc")
                || crate::text::str_eq(l, "docx") || crate::text::str_eq(l, "rtf")
                || crate::text::str_eq(l, "html") || crate::text::str_eq(l, "htm")
                || crate::text::str_eq(l, "odt") || crate::text::str_eq(l, "mobi")
                || crate::text::str_eq(l, "azw") || crate::text::str_eq(l, "azw3")
        },
        None => match on_disk {
            Some((is_file, len)) => is_file && len < 52428800,
            None => false,
        },
    }
}

// ---------------------------------------------------------------------------
// Dropped files
// ---------------------------------------------------------------------------

/// What is at a dropped path: nothing, or something, which may be a folder;
/// for a folder, `found` is the number of importable files found in it and
/// its subfolders.
#[derive(Clone, Copy, Debug, PartialEq, Eq, Structural)]
pub enum DropTarget {
    Missing,
    Present { is_dir: bool, found: usize },
}

/// A dropped path and what is at it.
pub open spec fn drop_views(v: Seq<(String, DropTarget)>) -> Seq<(Seq<char>, DropTarget)> {
    v.map_values(|x: (String, DropTarget)| (x.0@, x.1))
}

/// The files a dropped path counts for: none when nothing is there; itself
/// when its name is importable; itself and the files found in it when it
/// is a folder; itself otherwise.
pub open spec fn drop_counted(d: (Seq<char>, DropTarget)) -> nat {
    match d.1 {
        DropTarget::Missing => 0,
        DropTarget::Present { is_dir, found } => if !supported_file(d.0, None) && is_dir {
            1 + found as nat
        } else {
            1
        },
    }
}

/// The files imported for a dropped path: itself when something is there
/// and its name is importable, else the files found in it when it is a
/// folder, else none.
pub open spec fn drop_imported(d: (Seq<char>, DropTarget)) -> nat {
    match d.1 {
        DropTarget::Missing => 0,
        DropTarget::Present { is_dir, found } => if supported_file(d.0, None) {
            1
        } else if is_dir {
            found as nat
        } else {
            0
        },
    }
}

/// The files counted for all dropped paths.
pub open spec fn total_counted(v: Seq<(Seq<char>, DropTarget)>) -> nat
    decreases v.len(),
{
    if v.len() == 0 {
        0
    } else {
        total_counted(v.drop_last()) + drop_counted(v.last())
    }
}

/// The files imported for all dropped paths.
pub open spec fn total_imported(v: Seq<(Seq<char>, DropTarget)>) -> nat
    decreases v.len(),
{
    if v.len() == 0 {
        0
    } else {
        total_imported(v.drop_last()) + drop_imported(v.last())
    }
}

/// The dropped paths imported as files themselves, in order.
pub open spec fn dropped_files(v: Seq<(Seq<char>, DropTarget)>) -> Seq<Seq<char>>
    decreases v.len(),
{
    if v.len() == 0 {
        Seq::empty()
    } else {
        dropped_files(v.drop_last()) + if v.last().1 is Present && supported_file(v.last().0, None) {
            seq![v.last().0]
        } else {
            Seq::empty()
        }
    }
}

/// The tally of a drop: how many files it counts, how many are imported and
/// how many are not, and the dropped paths to import as files.
#[derive(Clone, Debug)]
pub struct DropOutcome {
    pub total: usize,
    pub imported: usize,
    pub failed: usize,
    pub files: Vec<String>,
}

/// A prefix of the drop counts no more than the whole drop.
proof fn lemma_total_counted_prefix(v: Seq<(Seq<char>, DropTarget)>, i: int)
    requires
        0 <= i <= v.len(),
    ensures
        total_counted(v.take(i)) <= total_counted(v),
    decreases v.len() - i,
{
    if i < v.len() {
        lemma_total_counted_prefix(v, i + 1);
        assert(v.take(i + 1).drop_last() =~= v.take(i));
    } else {
        assert(v.take(i) =~= v);
    }
}

/// Tallies a drop, given what is at each dropped path.
pub fn drop_outcome(dropped: &Vec<(String, DropTarget)>) -> (r: DropOutcome)
    requires
        total_counted(drop_views(dropped@)) <= usize::MAX,
    ensures
        r.total == total_counted(drop_views(dropped@)),
        r.imported == total_imported(drop_views(dropped@)),
        r.failed == r.total - r.imported,
        crate::text::views(r.files@) == dropped_files(drop_views(dropped@)),
{
    let ghost v = drop_views(dropped@);
    let mut total: usize = 0;
    let mut imported: usize = 0;
    let mut files: Vec<String> = Vec::new();
    let mut i: usize = 0;
    while i < dropped.len()
        invariant
            i <= dropped.len(),
            v == drop_views(dropped@),
            total_counted(v) <= usize::MAX,
            total == total_counted(v.take(i as int)),
            imported == total_imported(v.take(i as int)),
            imported <= total,
            crate::text::views(files@) == dropped_files(v.take(i as int)),
        decreases dropped.len() - i,
    {
        proof {
            lemma_total_counted_prefix(v, i + 1);
            assert(v.take(i + 1).drop_last() =~= v.take(i as int));
            assert(v.take(i + 1).last() == v[i as int]);
        }
        let path = &dropped[i].0;
        match dropped[i].1 {
            DropTarget::Missing => {},
            DropTarget::Present { is_dir, found } => {
                let supported = is_supported_file(path.as_str(), None);
                if supported {
                    total = total + 1;
                    imported = imported + 1;
                    let ghost before = crate::text::views(files@);
                    files.push(path.clone());
                    assert(crate::text::views(files@) =~= before + seq![path@]);
                } else if is_dir {
                    total = total + 1 + found;
                    imported = imported + found;
                } else {
                    total = total + 1;
                }
            },
        }
        proof {
            let ve = v.take(i + 1);
            assert(dropped_files(ve) =~= dropped_files(v.take(i as int)) + if v[i as int].1 is Present && supported_file(v[i as int].0, None) {
                seq![v[i as int].0]
            } else {
                Seq::<Seq<char>>::empty()
            });
        }
        i += 1;
    }
    assert(v.take(dropped.len() as int) =~= v);
    DropOutcome { total, imported, failed: total - imported, files }
}

} // verus!
