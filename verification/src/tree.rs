//! The desktop window's category tree: file counts per category path, the
//! labels of the tree's nodes, reading a category back from a label, and
//! what clicks and the context menu lead to.

use vstd::prelude::*;

use crate::counting::{distinct, occurrences, tally};
use crate::library::{sorted_distinct, strictly_sorted, StoredFile};
use crate::session::AppEvent;
use crate::text::{chars_of, decimal, has_prefix, push_decimal, push_str, str_eq, string_of, trim, trim_str, views};

verus! {

broadcast use vstd::string::group_string_axioms;

// ---------------------------------------------------------------------------
// Labels
// ---------------------------------------------------------------------------

/// `s` without any number of leading copies of `p` (`trim_start_matches`).
pub open spec fn strip_all(s: Seq<char>, p: Seq<char>) -> Seq<char>
    decreases s.len(),
{
    if p.len() > 0 && has_prefix(s, p) {
        strip_all(s.skip(p.len() as int), p)
    } else {
        s
    }
}

/// The position of the last " (" in `s`, if any.
pub open spec fn last_paren(s: Seq<char>) -> Option<int>
    decreases s.len(),
{
    if s.len() < 2 {
        None
    } else if s[s.len() - 2] == ' ' && s[s.len() - 1] == '(' {
        Some(s.len() - 2)
    } else {
        last_paren(s.drop_last())
    }
}

/// The category a tree label names: the label without its leading icons
/// ("📁 ", "📄 ", "📂 ", in that order) and without the file count that
/// starts at its last " (".
pub open spec fn label_category(label: Seq<char>) -> Seq<char> {
    let clean = strip_all(strip_all(strip_all(label, "📁 "@), "📄 "@), "📂 "@);
    match last_paren(clean) {
        Some(i) => clean.take(i),
        None => clean,
    }
}

/// `s` without leading copies of `p`.
fn strip_prefixes(s: Vec<char>, p: &str) -> (r: Vec<char>)
    ensures
        r@ == strip_all(s@, p@),
    decreases s@.len(),
{
    let pc = chars_of(p);
    if pc.len() > 0 && crate::text::starts_with_chars(&s, &pc) {
        let mut rest: Vec<char> = Vec::new();
        let mut k = pc.len();
        assert(rest@ =~= s@.subrange(pc@.len() as int, k as int));
        while k < s.len()
            invariant
                pc@.len() <= k <= s.len(),
                rest@ == s@.subrange(pc@.len() as int, k as int),
            decreases s.len() - k,
        {
            rest.push(s[k]);
            assert(s@.subrange(pc@.len() as int, k + 1) =~= s@.subrange(pc@.len() as int, k as int).push(s@[k as int]));
            k += 1;
        }
        assert(rest@ =~= s@.skip(pc@.len() as int));
        strip_prefixes(rest, p)
    } else {
        s
    }
}

/// The category a tree label names.
pub fn parse_category_from_label(label: &str) -> (r: String)
    ensures
        r@ == label_category(label@),
{
    let a = strip_prefixes(chars_of(label), "📁 ");
    let b = strip_prefixes(a, "📄 ");
    let c = strip_prefixes(b, "📂 ");
    let mut i = c.len();
    let mut found: Option<usize> = None;
    assert(c@.take(i as int) =~= c@);
    while i >= 2 && found.is_none()
        invariant
            i <= c@.len(),
            last_paren(c@) == match found {
                Some(j) => Some(j as int),
                None => last_paren(c@.take(i as int)),
            },
            found.is_some() ==> found.unwrap() + 2 <= c@.len(),
        decreases i + (if found.is_none() { 1int } else { 0int }),
    {
        let ghost t = c@.take(i as int);
        if c[i - 2] == ' ' && c[i - 1] == '(' {
            assert(t[t.len() - 2] == c@[i - 2] && t[t.len() - 1] == c@[i - 1]);
            found = Some(i - 2);
        } else {
            assert(t.drop_last() =~= c@.take(i - 1));
            i -= 1;
        }
    }
    match found {
        Some(j) => {
            let mut r: Vec<char> = Vec::new();
            let mut k: usize = 0;
            while k < j
                invariant
                    k <= j,
                    j <= c@.len(),
                    r@ == c@.take(k as int),
                decreases j - k,
            {
                r.push(c[k]);
                assert(c@.take(k + 1) =~= c@.take(k as int).push(c@[k as int]));
                k += 1;
            }
            string_of(&r)
        },
        None => {
            assert(last_paren(c@.take(i as int)) is None);
            string_of(&c)
        },
    }
}

/// What a click on a tree label raises: listing every file for "All
/// Files", filtering by the category for any other non-empty category,
/// nothing otherwise.
pub fn tree_click_event(label: &str) -> (r: Option<AppEvent>)
    ensures
        match r {
            Some(AppEvent::SearchQuery(q)) => label_category(label@) == "All Files"@ && q@.len() == 0,
            Some(AppEvent::CategorySelect(p)) => label_category(label@) != "All Files"@ && label_category(label@).len() > 0 && p@ == label_category(label@),
            Some(_) => false,
            None => label_category(label@).len() == 0,
        },
{
    let path = parse_category_from_label(label);
    if str_eq(path.as_str(), "All Files") {
        Some(AppEvent::SearchQuery(String::new()))
    } else if !path.as_str().is_empty() {
        Some(AppEvent::CategorySelect(path))
    } else {
        None
    }
}

// ---------------------------------------------------------------------------
// File counts
// ---------------------------------------------------------------------------

/// The category paths a file counts for: its first level, then with the
/// second level ("a/b"), then with the third ("a/b/c").
pub open spec fn count_keys_of(f: StoredFile) -> Seq<Seq<char>> {
    let c1 = f.category1@;
    match f.category2 {
        None => seq![c1],
        Some(c2) => match f.category3 {
            None => seq![c1, c1 + "/"@ + c2@],
            Some(c3) => seq![c1, c1 + "/"@ + c2@, c1 + "/"@ + c2@ + "/"@ + c3@],
        },
    }
}

/// The category paths of all files, in order.
pub open spec fn count_keys(fs: Seq<StoredFile>) -> Seq<Seq<char>>
    decreases fs.len(),
{
    if fs.len() == 0 {
        Seq::empty()
    } else {
        count_keys(fs.drop_last()) + count_keys_of(fs.last())
    }
}

/// The category paths of all files.
pub(crate) fn count_keys_exec(files: &Vec<StoredFile>) -> (r: Vec<String>)
    ensures
        views(r@) == count_keys(files@),
{
    let mut r: Vec<String> = Vec::new();
    let mut i: usize = 0;
    while i < files.len()
        invariant
            i <= files.len(),
            views(r@) == count_keys(files@.take(i as int)),
        decreases files.len() - i,
    {
        let f = &files[i];
        let ghost before = views(r@);
        r.push(f.category1.clone());
        match &f.category2 {
            None => {},
            Some(c2) => {
                let mut p2 = String::new();
                push_str(&mut p2, f.category1.as_str());
                push_str(&mut p2, "/");
                push_str(&mut p2, c2.as_str());
                match &f.category3 {
                    None => {
                        r.push(p2);
                    },
                    Some(c3) => {
                        let mut p3 = String::new();
                        push_str(&mut p3, p2.as_str());
                        push_str(&mut p3, "/");
                        push_str(&mut p3, c3.as_str());
                        r.push(p2);
                        r.push(p3);
                    },
                }
            },
        }
        assert(files@.take(i + 1).drop_last() =~= files@.take(i as int));
        assert(views(r@) =~= before + count_keys_of(files@[i as int]));
        i += 1;
    }
    assert(files@.take(files.len() as int) =~= files@);
    r
}

/// How many files each category path has, for every path that occurs, in
/// the order the paths first occur.
pub fn update_file_counts(files: &Vec<StoredFile>) -> (r: Vec<(String, usize)>)
    ensures
        r@.len() == distinct(count_keys(files@)).len(),
        forall|i: int|
            0 <= i < r@.len() ==> #[trigger] r@[i].0@ == distinct(count_keys(files@))[i] && r@[i].1
                == occurrences(count_keys(files@), r@[i].0@),
{
    let keys = count_keys_exec(files);
    tally(&keys)
}

/// The label of the root node: all files and how many there are.
pub fn all_files_label(count: usize) -> (r: String)
    ensures
        r@ == "📁 All Files ("@ + decimal(count as nat) + ")"@,
{
    let mut r = String::new();
    push_str(&mut r, "📁 All Files (");
    push_decimal(&mut r, count as u64);
    push_str(&mut r, ")");
    r
}

/// The icon of a top-level category in the summary tree.
pub open spec fn top_icon(name: Seq<char>) -> Seq<char> {
    if name == "Documents"@ {
        "📄"@
    } else if name == "Books"@ {
        "📚"@
    } else if name == "Research"@ {
        "🔬"@
    } else if name == "Archive"@ {
        "📦"@
    } else if name == "Uncategorized"@ || name == "未分类"@ {
        "❓"@
    } else {
        "📂"@
    }
}

/// The icon of a top-level category in the summary tree.
fn top_icon_of(name: &str) -> (r: &'static str)
    ensures
        r@ == top_icon(name@),
{
    if str_eq(name, "Documents") {
        "📄"
    } else if str_eq(name, "Books") {
        "📚"
    } else if str_eq(name, "Research") {
        "🔬"
    } else if str_eq(name, "Archive") {
        "📦"
    } else if str_eq(name, "Uncategorized") || str_eq(name, "未分类") {
        "❓"
    } else {
        "📂"
    }
}

/// A node's label: icon, name and file count.
pub open spec fn node_label(icon: Seq<char>, name: Seq<char>, count: nat) -> Seq<char> {
    icon + " "@ + name + " ("@ + decimal(count) + ")"@
}

/// The sum of the counts.
pub open spec fn count_sum(c: Seq<(String, usize)>) -> nat
    decreases c.len(),
{
    if c.len() == 0 {
        0
    } else {
        count_sum(c.drop_last()) + c.last().1 as nat
    }
}

/// The count of a path among the counts (0 when it has none).
pub open spec fn count_of(c: Seq<(String, usize)>, k: Seq<char>) -> nat
    decreases c.len(),
{
    if c.len() == 0 {
        0
    } else if c.last().0@ == k {
        c.last().1 as nat
    } else {
        count_of(c.drop_last(), k)
    }
}

/// The summary tree's labels after the counts change: the root with the
/// sum of the counts (at least 1), then each path without a "/" in order,
/// with its icon and count.
pub open spec fn summary_labels(c: Seq<(String, usize)>, ns: Seq<Seq<char>>) -> Seq<Seq<char>> {
    seq!["📁 All Files ("@ + decimal(if count_sum(c) == 0 { 1 } else { count_sum(c) }) + ")"@]
        + ns.map_values(|n: Seq<char>| node_label(top_icon(n), n, count_of(c, n)))
}

/// The paths among the counts without a "/".
pub open spec fn top_paths(c: Seq<(String, usize)>) -> Set<Seq<char>> {
    c.map_values(|p: (String, usize)| p.0@).to_set().filter(|k: Seq<char>| !k.contains('/'))
}

/// The count of a path among the counts.
fn count_of_exec(c: &Vec<(String, usize)>, k: &str) -> (r: usize)
    ensures
        r == count_of(c@, k@),
{
    let mut i = c.len();
    assert(c@.take(i as int) =~= c@);
    while i > 0
        invariant
            i <= c@.len(),
            count_of(c@, k@) == count_of(c@.take(i as int), k@),
        decreases i,
    {
        let ghost t = c@.take(i as int);
        if str_eq(c[i - 1].0.as_str(), k) {
            assert(t.last() == c@[i - 1]);
            return c[i - 1].1;
        }
        assert(t.drop_last() =~= c@.take(i - 1));
        i -= 1;
    }
    0
}

/// The summary tree's labels after the counts change.
pub fn refresh_tree_labels(counts: &Vec<(String, usize)>) -> (r: Vec<String>)
    requires
        count_sum(counts@) <= usize::MAX,
    ensures
        exists|ns: Seq<Seq<char>>|
            strictly_sorted(ns) && ns.to_set() == top_paths(counts@) && views(r@) == summary_labels(counts@, ns),
{
    let mut total: usize = 0;
    let mut i: usize = 0;
    let mut tops: Vec<String> = Vec::new();
    let ghost keys = counts@.map_values(|p: (String, usize)| p.0@);
    while i < counts.len()
        invariant
            i <= counts.len(),
            count_sum(counts@) <= usize::MAX,
            total == count_sum(counts@.take(i as int)),
            keys == counts@.map_values(|p: (String, usize)| p.0@),
            views(tops@).to_set() == keys.take(i as int).to_set().filter(|k: Seq<char>| !k.contains('/')),
        decreases counts.len() - i,
    {
        assert(counts@.take(i + 1).drop_last() =~= counts@.take(i as int));
        proof {
            lemma_count_sum_prefix(counts@, i + 1);
        }
        total = total + counts[i].1;
        let name = chars_of(counts[i].0.as_str());
        let mut has_slash = false;
        let mut j: usize = 0;
        while j < name.len()
            invariant
                j <= name@.len(),
                has_slash == name@.take(j as int).contains('/'),
            decreases name@.len() - j,
        {
            if name[j] == '/' {
                has_slash = true;
                assert(name@.take(j + 1)[j as int] == '/');
            }
            assert(name@.take(j + 1) =~= name@.take(j as int).push(name@[j as int]));
            j += 1;
        }
        assert(name@.take(name@.len() as int) =~= name@);
        let ghost before = views(tops@);
        if !has_slash {
            tops.push(counts[i].0.clone());
            assert(views(tops@) =~= before.push(counts@[i as int].0@));
        }
        proof {
            let k1 = keys.take(i + 1);
            assert(k1 =~= keys.take(i as int).push(keys[i as int]));
            assert(keys[i as int] == counts@[i as int].0@);
            assert(views(tops@).to_set() =~= k1.to_set().filter(|k: Seq<char>| !k.contains('/'))) by {
                assert forall|x: Seq<char>| views(tops@).to_set().contains(x) <==> k1.to_set().filter(|k: Seq<char>| !k.contains('/')).contains(x) by {
                    if views(tops@).contains(x) {
                        let q = choose|q: int| 0 <= q < views(tops@).len() && views(tops@)[q] == x;
                        if q < before.len() {
                            assert(before.contains(x));
                            assert(before.to_set().contains(x));
                            let z = choose|z: int| 0 <= z < keys.take(i as int).len() && keys.take(i as int)[z] == x;
                            assert(k1[z] == x);
                        } else {
                            assert(k1[i as int] == x);
                        }
                    }
                    if k1.contains(x) && !x.contains('/') {
                        let z = choose|z: int| 0 <= z < k1.len() && k1[z] == x;
                        if z < i {
                            assert(keys.take(i as int)[z] == x);
                            assert(before.to_set().contains(x));
                            let q = choose|q: int| 0 <= q < before.len() && before[q] == x;
                            assert(views(tops@)[q] == x);
                        } else {
                            assert(views(tops@)[views(tops@).len() - 1] == x);
                        }
                    }
                }
            }
        }
        i += 1;
    }
    assert(counts@.take(counts.len() as int) =~= counts@);
    assert(keys.take(counts.len() as int) =~= keys);
    let names = sorted_distinct(&tops);
    let ghost ns = views(names@);
    let shown = if total == 0 { 1 } else { total };
    let mut r: Vec<String> = Vec::new();
    r.push(all_files_label(shown));
    let mut k: usize = 0;
    while k < names.len()
        invariant
            k <= names.len(),
            ns == views(names@),
            views(r@) == seq!["📁 All Files ("@ + decimal(shown as nat) + ")"@] + ns.take(k as int).map_values(|n: Seq<char>| node_label(top_icon(n), n, count_of(counts@, n))),
        decreases names.len() - k,
    {
        let icon = top_icon_of(names[k].as_str());
        let count = count_of_exec(counts, names[k].as_str());
        let mut label = String::new();
        push_str(&mut label, icon);
        push_str(&mut label, " ");
        push_str(&mut label, names[k].as_str());
        push_str(&mut label, " (");
        push_decimal(&mut label, count as u64);
        push_str(&mut label, ")");
        let ghost before = views(r@);
        r.push(label);
        assert(views(r@) =~= before.push(label@));
        assert(ns.take(k + 1) =~= ns.take(k as int).push(ns[k as int]));
        assert(views(r@) =~= seq!["📁 All Files ("@ + decimal(shown as nat) + ")"@] + ns.take(k + 1).map_values(|n: Seq<char>| node_label(top_icon(n), n, count_of(counts@, n))));
        k += 1;
    }
    assert(ns.take(names.len() as int) =~= ns);
    assert(views(r@) == summary_labels(counts@, ns));
    r
}

/// A prefix sum is at most the whole sum.
proof fn lemma_count_sum_prefix(c: Seq<(String, usize)>, i: int)
    requires
        0 <= i <= c.len(),
    ensures
        count_sum(c.take(i)) <= count_sum(c),
    decreases c.len() - i,
{
    if i < c.len() {
        lemma_count_sum_prefix(c, i + 1);
        assert(c.take(i + 1).drop_last() =~= c.take(i));
    } else {
        assert(c.take(i) =~= c);
    }
}

// ---------------------------------------------------------------------------
// The context menu
// ---------------------------------------------------------------------------

/// The entries of a node's context menu.
pub open spec fn menu_items_spec(path: Seq<char>) -> Seq<Seq<char>> {
    if path == "All Files"@ {
        seq!["📁 Show All Files"@, "➕ Create New Category"@, "🔄 Refresh Categories"@]
    } else {
        seq![
            "📂 View Files in '"@ + path + "'"@,
            "➕ Add Subcategory to '"@ + path + "'"@,
            "✏️ Rename '"@ + path + "'"@,
            "🗑️ Delete '"@ + path + "'"@,
            "🔄 Refresh"@,
        ]
    }
}

/// `before`, the path, and a closing quote.
fn quoted_path(before: &str, path: &str) -> (r: String)
    ensures
        r@ == before@ + path@ + "'"@,
{
    let mut r = String::new();
    push_str(&mut r, before);
    push_str(&mut r, path);
    push_str(&mut r, "'");
    r
}

/// The entries of a node's context menu.
pub fn menu_items(path: &str) -> (r: Vec<String>)
    ensures
        views(r@) == menu_items_spec(path@),
{
    let mut r: Vec<String> = Vec::new();
    if str_eq(path, "All Files") {
        r.push("📁 Show All Files".to_owned());
        r.push("➕ Create New Category".to_owned());
        r.push("🔄 Refresh Categories".to_owned());
    } else {
        r.push(quoted_path("📂 View Files in '", path));
        r.push(quoted_path("➕ Add Subcategory to '", path));
        r.push(quoted_path("✏️ Rename '", path));
        r.push(quoted_path("🗑️ Delete '", path));
        r.push("🔄 Refresh".to_owned());
    }
    assert(views(r@) =~= menu_items_spec(path@));
    r
}

/// What a context menu choice leads to.
#[derive(Clone, Debug)]
pub enum TreeMenuAction {
    /// Raise the event.
    Send(AppEvent),
    /// Ask for a new category's name.
    CreateCategory,
    /// Ask for a subcategory's name under the path.
    AddSubcategory(String),
    /// Ask for a new name for the path.
    Rename(String),
    /// Ask whether to delete the path.
    Delete(String),
}

/// What the choice at a position of a node's context menu leads to.
pub fn tree_menu_choice(path: &str, choice: usize) -> (r: Option<TreeMenuAction>)
    ensures
        path@ == "All Files"@ ==> match r {
            None => choice > 2,
            Some(TreeMenuAction::Send(AppEvent::SearchQuery(q))) => choice == 0 && q@.len() == 0,
            Some(TreeMenuAction::CreateCategory) => choice == 1,
            Some(TreeMenuAction::Send(AppEvent::RefreshView)) => choice == 2,
            _ => false,
        },
        path@ != "All Files"@ ==> match r {
            None => choice > 4,
            Some(TreeMenuAction::Send(AppEvent::CategorySelect(p))) => choice == 0 && p@ == path@,
            Some(TreeMenuAction::AddSubcategory(p)) => choice == 1 && p@ == path@,
            Some(TreeMenuAction::Rename(p)) => choice == 2 && p@ == path@,
            Some(TreeMenuAction::Delete(p)) => choice == 3 && p@ == path@,
            Some(TreeMenuAction::Send(AppEvent::RefreshView)) => choice == 4,
            _ => false,
        },
{
    if str_eq(path, "All Files") {
        match choice {
            0 => Some(TreeMenuAction::Send(AppEvent::SearchQuery(String::new()))),
            1 => Some(TreeMenuAction::CreateCategory),
            2 => Some(TreeMenuAction::Send(AppEvent::RefreshView)),
            _ => None,
        }
    } else {
        match choice {
            0 => Some(TreeMenuAction::Send(AppEvent::CategorySelect(path.to_owned()))),
            1 => Some(TreeMenuAction::AddSubcategory(path.to_owned())),
            2 => Some(TreeMenuAction::Rename(path.to_owned())),
            3 => Some(TreeMenuAction::Delete(path.to_owned())),
            4 => Some(TreeMenuAction::Send(AppEvent::RefreshView)),
            _ => None,
        }
    }
}

/// The event after the new category dialog: the trimmed name, unless the
/// dialog was cancelled or the name is blank.
pub fn created_category_event(input: Option<&str>) -> (r: Option<AppEvent>)
    ensures
        match r {
            Some(AppEvent::CategoryCreated(n)) => input is Some && trim(input->0@).len() > 0 && n@ == trim(input->0@),
            Some(_) => false,
            None => input is None || trim(input->0@).len() == 0,
        },
{
    match input {
        Some(s) => {
            let t = trim_str(s);
            if t.as_str().is_empty() {
                None
            } else {
                Some(AppEvent::CategoryCreated(t))
            }
        },
        None => None,
    }
}

/// The event after the new subcategory dialog: the parent path, "/" and
/// the trimmed name, unless cancelled or blank.
pub fn subcategory_event(parent: &str, input: Option<&str>) -> (r: Option<AppEvent>)
    ensures
        match r {
            Some(AppEvent::CategoryCreated(n)) => input is Some && trim(input->0@).len() > 0 && n@ == parent@ + "/"@ + trim(input->0@),
            Some(_) => false,
            None => input is None || trim(input->0@).len() == 0,
        },
{
    match input {
        Some(s) => {
            let t = trim_str(s);
            if t.as_str().is_empty() {
                None
            } else {
                let mut n = String::new();
                push_str(&mut n, parent);
                push_str(&mut n, "/");
                push_str(&mut n, t.as_str());
                Some(AppEvent::CategoryCreated(n))
            }
        },
        None => None,
    }
}

/// The event after the rename dialog: "path:new name", unless cancelled,
/// blank, or the same as the path.
pub fn rename_event(path: &str, input: Option<&str>) -> (r: Option<AppEvent>)
    ensures
        match r {
            Some(AppEvent::CategoryUpdated(n)) => input is Some && trim(input->0@).len() > 0 && trim(input->0@) != path@ && n@ == path@ + ":"@ + trim(input->0@),
            Some(_) => false,
            None => input is None || trim(input->0@).len() == 0 || trim(input->0@) == path@,
        },
{
    match input {
        Some(s) => {
            let t = trim_str(s);
            if t.as_str().is_empty() || str_eq(t.as_str(), path) {
                None
            } else {
                let mut n = String::new();
                push_str(&mut n, path);
                push_str(&mut n, ":");
                push_str(&mut n, t.as_str());
                Some(AppEvent::CategoryUpdated(n))
            }
        },
        None => None,
    }
}

/// The question asked before deleting a category.
pub fn delete_question(path: &str) -> (r: String)
    ensures
        r@ == "Are you sure you want to delete category '"@ + path@ + "'?\nFiles in this category will be moved to 'Uncategorized'."@,
{
    let mut r = String::new();
    push_str(&mut r, "Are you sure you want to delete category '");
    push_str(&mut r, path);
    push_str(&mut r, "'?\nFiles in this category will be moved to 'Uncategorized'.");
    r
}

} // verus!

verus! {

/// The icons a label may start with, which reading a label drops.
pub open spec fn is_label_icon(c: char) -> bool {
    c == '📁' || c == '📄' || c == '📂'
}

/// The last " (" of `a`, " (" and text without '(' is the one after `a`.
proof fn lemma_last_paren_after(a: Seq<char>, d: Seq<char>)
    requires
        forall|j: int| 0 <= j < d.len() ==> d[j] != '(',
    ensures
        last_paren(a + " ("@ + d) == Some(a.len() as int),
    decreases d.len(),
{
    reveal_strlit(" (");
    let s = a + " ("@ + d;
    if d.len() > 0 {
        assert(s.drop_last() =~= a + " ("@ + d.drop_last());
        assert(s[s.len() - 1] == d[d.len() - 1]);
        lemma_last_paren_after(a, d.drop_last());
    }
}

/// Text that does not start with an icon followed by a space is left alone
/// by stripping that icon and space.
proof fn lemma_strip_absent(s: Seq<char>, icon: char)
    requires
        s.len() > 0,
        s[0] != icon || (s.len() > 1 && s[1] != ' '),
    ensures
        strip_all(s, seq![icon, ' ']) == s,
{
    let p = seq![icon, ' '];
    if has_prefix(s, p) {
        assert(s.take(2)[0] == p[0]);
        assert(s.take(2)[1] == p[1]);
    }
}

/// A node label made with one of the label icons reads back as the name it
/// was made for, whatever its file count, unless the name itself starts
/// with a label icon that is followed by a space or ends the name.
pub proof fn lemma_label_round_trip(icon: char, name: Seq<char>, count: nat)
    requires
        is_label_icon(icon),
        !(name.len() >= 1 && is_label_icon(name[0]) && (name.len() == 1 || name[1] == ' ')),
    ensures
        label_category(node_label(seq![icon], name, count)) == name,
{
    reveal_strlit("📁 ");
    reveal_strlit("📄 ");
    reveal_strlit("📂 ");
    reveal_strlit(" ");
    reveal_strlit(" (");
    reveal_strlit(")");
    crate::text::lemma_decimal_digits(count);
    let d = decimal(count) + ")"@;
    assert forall|j: int| 0 <= j < d.len() implies d[j] != '(' by {
        if j < decimal(count).len() {
            assert(crate::text::is_digit(decimal(count)[j]));
        }
    }
    let rest = name + " ("@ + d;
    let label = node_label(seq![icon], name, count);
    assert(label =~= seq![icon, ' '] + rest);
    assert(rest.len() > 1);
    assert(!is_label_icon(rest[0]) || rest[1] != ' ') by {
        if name.len() == 0 {
            assert(rest[0] == ' ');
        } else if name.len() == 1 {
            assert(rest[0] == name[0]);
        } else {
            assert(rest[0] == name[0]);
            assert(rest[1] == name[1]);
        }
    }
    assert(label.take(2) =~= seq![icon, ' ']);
    assert(label.skip(2) =~= rest);
    assert("📁 "@ =~= seq!['📁', ' ']);
    assert("📄 "@ =~= seq!['📄', ' ']);
    assert("📂 "@ =~= seq!['📂', ' ']);
    lemma_strip_absent(rest, '📁');
    lemma_strip_absent(rest, '📄');
    lemma_strip_absent(rest, '📂');
    if icon == '📁' {
        assert(strip_all(label, "📁 "@) == rest);
    } else if icon == '📄' {
        lemma_strip_absent(label, '📁');
        assert(strip_all(label, "📄 "@) == rest);
    } else {
        lemma_strip_absent(label, '📁');
        lemma_strip_absent(label, '📄');
        assert(strip_all(label, "📂 "@) == rest);
    }
    lemma_last_paren_after(name, d);
    assert(rest =~= name + " ("@ + d);
    assert(rest.take(name.len() as int) =~= name);
}

/// The labels of the tree when there are no files.
pub fn default_tree_labels() -> (r: Vec<&'static str>)
    ensures
        r@.len() == 6,
        r@[0]@ == "📁 All Files (0)"@,
        r@[1]@ == "📂 Documents (0)"@,
        r@[2]@ == "📂 Books (0)"@,
        r@[3]@ == "📂 Research (0)"@,
        r@[4]@ == "📂 Archive (0)"@,
        r@[5]@ == "📂 Uncategorized (0)"@,
{
    vec![
        "📁 All Files (0)",
        "📂 Documents (0)",
        "📂 Books (0)",
        "📂 Research (0)",
        "📂 Archive (0)",
        "📂 Uncategorized (0)",
    ]
}

} // verus!
