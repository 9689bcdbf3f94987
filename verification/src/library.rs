//! The file library as the browsing front end sees it: file entries and
//! their category paths, the category tree built from a result list, and
//! filtering a result list by the selected category.

use vstd::prelude::*;

use crate::text::{chars_of, string_of, views};

verus! {

broadcast use vstd::string::group_string_axioms;

// ---------------------------------------------------------------------------
// Records
// ---------------------------------------------------------------------------

/// A file as the storage layer returns it: identifier, title, the name the
/// file had when it was imported, path, the
/// three category levels (an empty first level meaning "no category"),
/// tags, authors, year, publisher, source, summary, the creation and
/// update times and the size in bytes.
#[derive(Clone, Debug)]
pub struct StoredFile {
    pub id: String,
    pub title: String,
    pub original_filename: String,
    pub path: String,
    pub category1: String,
    pub category2: Option<String>,
    pub category3: Option<String>,
    pub tags: Vec<String>,
    pub authors: Vec<String>,
    pub year: Option<i32>,
    pub publisher: Option<String>,
    pub source: Option<String>,
    pub summary: Option<String>,
    pub created_at: String,
    pub updated_at: String,
    pub file_size_bytes: i64,
}

/// A page of search results.
#[derive(Clone, Debug)]
pub struct SearchResult {
    pub entries: Vec<StoredFile>,
    pub total_count: usize,
    pub offset: usize,
    pub limit: usize,
}

/// A file's place in the three-level category hierarchy.
#[derive(Clone, Debug)]
pub struct CategoryPath {
    pub level1: String,
    pub level2: Option<String>,
    pub level3: Option<String>,
}

/// The value of a `CategoryPath`.
pub struct CategoryPathView {
    pub level1: Seq<char>,
    pub level2: Option<Seq<char>>,
    pub level3: Option<Seq<char>>,
}

/// The view of an optional string.
pub open spec fn opt_view(o: Option<String>) -> Option<Seq<char>> {
    match o {
        Some(s) => Some(s@),
        None => None,
    }
}

impl View for CategoryPath {
    type V = CategoryPathView;

    open spec fn view(&self) -> CategoryPathView {
        CategoryPathView {
            level1: self.level1@,
            level2: opt_view(self.level2),
            level3: opt_view(self.level3),
        }
    }
}

/// A file as the browsing view shows it.
#[derive(Clone, Debug)]
pub struct FileEntry {
    pub id: String,
    pub title: String,
    pub path: String,
    pub tags: Vec<String>,
    pub summary: Option<String>,
    pub authors: Vec<String>,
    pub category: Option<CategoryPath>,
    pub size: u64,
    pub modified_at: String,
    pub imported_at: String,
}

/// The value of a `FileEntry`.
pub struct FileEntryView {
    pub id: Seq<char>,
    pub title: Seq<char>,
    pub path: Seq<char>,
    pub tags: Seq<Seq<char>>,
    pub summary: Option<Seq<char>>,
    pub authors: Seq<Seq<char>>,
    pub category: Option<CategoryPathView>,
    pub size: u64,
    pub modified_at: Seq<char>,
    pub imported_at: Seq<char>,
}

impl View for FileEntry {
    type V = FileEntryView;

    open spec fn view(&self) -> FileEntryView {
        FileEntryView {
            id: self.id@,
            title: self.title@,
            path: self.path@,
            tags: views(self.tags@),
            summary: opt_view(self.summary),
            authors: views(self.authors@),
            category: match self.category {
                Some(c) => Some(c@),
                None => None,
            },
            size: self.size,
            modified_at: self.modified_at@,
            imported_at: self.imported_at@,
        }
    }
}

/// The browsing entry of a stored file: the category path is present when
/// the first level is non-empty, the size is not known (zero), the
/// modification time is the update time and the import time the creation
/// time.
pub open spec fn entry_of(s: StoredFile) -> FileEntry {
    FileEntry {
        id: s.id,
        title: s.title,
        path: s.path,
        tags: s.tags,
        summary: s.summary,
        authors: s.authors,
        category: if s.category1@.len() > 0 {
            Some(CategoryPath { level1: s.category1, level2: s.category2, level3: s.category3 })
        } else {
            None
        },
        size: 0,
        modified_at: s.updated_at,
        imported_at: s.created_at,
    }
}

impl vstd::std_specs::convert::FromSpecImpl<StoredFile> for FileEntry {
    open spec fn obeys_from_spec() -> bool {
        true
    }

    open spec fn from_spec(s: StoredFile) -> FileEntry {
        entry_of(s)
    }
}

impl From<StoredFile> for FileEntry {
    fn from(entry: StoredFile) -> (r: FileEntry) {
        let category = if !entry.category1.as_str().is_empty() {
            Some(
                CategoryPath {
                    level1: entry.category1,
                    level2: entry.category2,
                    level3: entry.category3,
                },
            )
        } else {
            None
        };
        FileEntry {
            id: entry.id,
            title: entry.title,
            path: entry.path,
            tags: entry.tags,
            summary: entry.summary,
            authors: entry.authors,
            category,
            size: 0,
            modified_at: entry.updated_at,
            imported_at: entry.created_at,
        }
    }
}

} // verus!

verus! {

// ---------------------------------------------------------------------------
// Copies with known values
// ---------------------------------------------------------------------------

/// A copy of a list of strings.
pub fn copy_strings(v: &Vec<String>) -> (r: Vec<String>)
    ensures
        r@ == v@,
{
    let mut r: Vec<String> = Vec::new();
    let mut i: usize = 0;
    while i < v.len()
        invariant
            i <= v.len(),
            r@ == v@.take(i as int),
        decreases v.len() - i,
    {
        r.push(v[i].clone());
        assert(v@.take(i + 1) =~= v@.take(i as int).push(v@[i as int]));
        i += 1;
    }
    assert(v@.take(v.len() as int) =~= v@);
    r
}

/// A copy of an optional string.
pub fn copy_opt(o: &Option<String>) -> (r: Option<String>)
    ensures
        r == *o,
{
    match o {
        Some(s) => Some(s.clone()),
        None => None,
    }
}

/// A copy of a category path.
pub fn copy_path(c: &CategoryPath) -> (r: CategoryPath)
    ensures
        r@ == c@,
{
    CategoryPath {
        level1: c.level1.clone(),
        level2: copy_opt(&c.level2),
        level3: copy_opt(&c.level3),
    }
}

/// A copy of a file entry.
pub fn copy_entry(e: &FileEntry) -> (r: FileEntry)
    ensures
        r@ == e@,
{
    let category = match &e.category {
        Some(c) => Some(copy_path(c)),
        None => None,
    };
    FileEntry {
        id: e.id.clone(),
        title: e.title.clone(),
        path: e.path.clone(),
        tags: copy_strings(&e.tags),
        summary: copy_opt(&e.summary),
        authors: copy_strings(&e.authors),
        category,
        size: e.size,
        modified_at: e.modified_at.clone(),
        imported_at: e.imported_at.clone(),
    }
}

/// The value of a `StoredFile`.
pub struct StoredView {
    pub id: Seq<char>,
    pub title: Seq<char>,
    pub original_filename: Seq<char>,
    pub path: Seq<char>,
    pub category1: Seq<char>,
    pub category2: Option<Seq<char>>,
    pub category3: Option<Seq<char>>,
    pub tags: Seq<Seq<char>>,
    pub authors: Seq<Seq<char>>,
    pub year: Option<i32>,
    pub publisher: Option<Seq<char>>,
    pub source: Option<Seq<char>>,
    pub summary: Option<Seq<char>>,
    pub created_at: Seq<char>,
    pub updated_at: Seq<char>,
    pub file_size_bytes: i64,
}

impl View for StoredFile {
    type V = StoredView;

    open spec fn view(&self) -> StoredView {
        StoredView {
            id: self.id@,
            title: self.title@,
            original_filename: self.original_filename@,
            path: self.path@,
            category1: self.category1@,
            category2: opt_view(self.category2),
            category3: opt_view(self.category3),
            tags: views(self.tags@),
            authors: views(self.authors@),
            year: self.year,
            publisher: opt_view(self.publisher),
            source: opt_view(self.source),
            summary: opt_view(self.summary),
            created_at: self.created_at@,
            updated_at: self.updated_at@,
            file_size_bytes: self.file_size_bytes,
        }
    }
}

/// A copy of a stored file.
pub fn copy_stored(s: &StoredFile) -> (r: StoredFile)
    ensures
        r@ == s@,
{
    StoredFile {
        id: s.id.clone(),
        title: s.title.clone(),
        original_filename: s.original_filename.clone(),
        path: s.path.clone(),
        category1: s.category1.clone(),
        category2: copy_opt(&s.category2),
        category3: copy_opt(&s.category3),
        tags: copy_strings(&s.tags),
        authors: copy_strings(&s.authors),
        year: s.year,
        publisher: copy_opt(&s.publisher),
        source: copy_opt(&s.source),
        summary: copy_opt(&s.summary),
        created_at: s.created_at.clone(),
        updated_at: s.updated_at.clone(),
        file_size_bytes: s.file_size_bytes,
    }
}

/// The browsing entry of a stored file, leaving the stored file in place.
pub fn entry_from_stored(s: &StoredFile) -> (r: FileEntry)
    ensures
        r@ == entry_of(*s)@,
{
    let category = if !s.category1.as_str().is_empty() {
        Some(
            CategoryPath {
                level1: s.category1.clone(),
                level2: copy_opt(&s.category2),
                level3: copy_opt(&s.category3),
            },
        )
    } else {
        None
    };
    FileEntry {
        id: s.id.clone(),
        title: s.title.clone(),
        path: s.path.clone(),
        tags: copy_strings(&s.tags),
        summary: copy_opt(&s.summary),
        authors: copy_strings(&s.authors),
        category,
        size: 0,
        modified_at: s.updated_at.clone(),
        imported_at: s.created_at.clone(),
    }
}

/// The views of a sequence of entries.
pub open spec fn entry_views(v: Seq<FileEntry>) -> Seq<FileEntryView> {
    v.map_values(|e: FileEntry| e@)
}

/// The browsing entries of a sequence of stored files.
pub open spec fn stored_views(v: Seq<StoredFile>) -> Seq<FileEntryView> {
    v.map_values(|s: StoredFile| entry_of(s)@)
}

/// The browsing entries of the stored files of a result list.
pub fn entries_of(stored: &Vec<StoredFile>) -> (r: Vec<FileEntry>)
    ensures
        entry_views(r@) == stored_views(stored@),
{
    let mut r: Vec<FileEntry> = Vec::new();
    let mut i: usize = 0;
    while i < stored.len()
        invariant
            i <= stored.len(),
            r@.len() == i,
            forall|k: int| 0 <= k < i ==> #[trigger] r@[k]@ == entry_of(stored@[k])@,
        decreases stored.len() - i,
    {
        let e = entry_from_stored(&stored[i]);
        r.push(e);
        i += 1;
    }
    assert(entry_views(r@) =~= stored_views(stored@));
    r
}

} // verus!

verus! {

// ---------------------------------------------------------------------------
// Category keys
// ---------------------------------------------------------------------------

/// Two path components joined by `/`.
pub open spec fn join2(a: Seq<char>, b: Seq<char>) -> Seq<char> {
    a + seq!['/'] + b
}

/// Three path components joined by `/`.
pub open spec fn join3(a: Seq<char>, b: Seq<char>, c: Seq<char>) -> Seq<char> {
    join2(join2(a, b), c)
}

/// The key of the deepest category a file belongs to (`a`, `a/b` or
/// `a/b/c`); a third level counts only below a second one.
pub open spec fn leaf_key(f: FileEntryView) -> Option<Seq<char>> {
    match f.category {
        None => None,
        Some(c) => Some(
            match c.level2 {
                None => c.level1,
                Some(l2) => match c.level3 {
                    None => join2(c.level1, l2),
                    Some(l3) => join3(c.level1, l2, l3),
                },
            },
        ),
    }
}

/// The keys of every category a file lies in, outermost first.
pub open spec fn path_keys(f: FileEntryView) -> Seq<Seq<char>> {
    match f.category {
        None => Seq::empty(),
        Some(c) => match c.level2 {
            None => seq![c.level1],
            Some(l2) => match c.level3 {
                None => seq![c.level1, join2(c.level1, l2)],
                Some(l3) => seq![c.level1, join2(c.level1, l2), join3(c.level1, l2, l3)],
            },
        },
    }
}

/// `ks` extended by the members of `new` it lacks, in order.
pub open spec fn add_keys(ks: Seq<Seq<char>>, new: Seq<Seq<char>>) -> Seq<Seq<char>>
    decreases new.len(),
{
    if new.len() == 0 {
        ks
    } else {
        let k2 = add_keys(ks, new.drop_last());
        if k2.contains(new.last()) {
            k2
        } else {
            k2.push(new.last())
        }
    }
}

/// The keys of every category that some file lies in, each once, in the
/// order of first appearance.
pub open spec fn category_keys(fs: Seq<FileEntryView>) -> Seq<Seq<char>>
    decreases fs.len(),
{
    if fs.len() == 0 {
        Seq::empty()
    } else {
        add_keys(category_keys(fs.drop_last()), path_keys(fs.last()))
    }
}

/// The files whose deepest category has key `k`, in order.
pub open spec fn files_at(fs: Seq<FileEntryView>, k: Seq<char>) -> Seq<FileEntryView>
    decreases fs.len(),
{
    if fs.len() == 0 {
        Seq::empty()
    } else {
        let r = files_at(fs.drop_last(), k);
        if leaf_key(fs.last()) == Some(k) {
            r.push(fs.last())
        } else {
            r
        }
    }
}

/// The files without a category, in order.
pub open spec fn uncategorized_files(fs: Seq<FileEntryView>) -> Seq<FileEntryView>
    decreases fs.len(),
{
    if fs.len() == 0 {
        Seq::empty()
    } else {
        let r = uncategorized_files(fs.drop_last());
        if fs.last().category is None {
            r.push(fs.last())
        } else {
            r
        }
    }
}

/// The number of `/` in a key.
pub open spec fn slash_count(k: Seq<char>) -> nat
    decreases k.len(),
{
    if k.len() == 0 {
        0
    } else {
        slash_count(k.drop_last()) + if k.last() == '/' {
            1nat
        } else {
            0nat
        }
    }
}

/// A copy of a character vector.
fn copy_chars(v: &Vec<char>) -> (r: Vec<char>)
    ensures
        r@ == v@,
{
    let mut r: Vec<char> = Vec::new();
    let mut i: usize = 0;
    while i < v.len()
        invariant
            i <= v.len(),
            r@ == v@.take(i as int),
        decreases v.len() - i,
    {
        r.push(v[i]);
        assert(v@.take(i + 1) =~= v@.take(i as int).push(v@[i as int]));
        i += 1;
    }
    assert(v@.take(v.len() as int) =~= v@);
    r
}

/// Two keys joined by `/`.
fn join_chars(a: &Vec<char>, b: &Vec<char>) -> (r: Vec<char>)
    ensures
        r@ == join2(a@, b@),
{
    let mut r = copy_chars(a);
    r.push('/');
    let mut i: usize = 0;
    let ghost start = r@;
    while i < b.len()
        invariant
            i <= b.len(),
            start == a@ + seq!['/'],
            r@ == start + b@.take(i as int),
        decreases b.len() - i,
    {
        r.push(b[i]);
        assert(b@.take(i + 1) =~= b@.take(i as int).push(b@[i as int]));
        i += 1;
    }
    assert(b@.take(b.len() as int) =~= b@);
    r
}

/// The keys of every category a file lies in.
fn path_keys_of(e: &FileEntry) -> (r: Vec<Vec<char>>)
    ensures
        crate::text::char_views(r@) == path_keys(e@),
{
    let mut r: Vec<Vec<char>> = Vec::new();
    match &e.category {
        None => {},
        Some(c) => {
            let l1 = chars_of(c.level1.as_str());
            match &c.level2 {
                None => {
                    r.push(l1);
                },
                Some(l2s) => {
                    let l2 = chars_of(l2s.as_str());
                    let k2 = join_chars(&l1, &l2);
                    match &c.level3 {
                        None => {
                            r.push(l1);
                            r.push(k2);
                        },
                        Some(l3s) => {
                            let l3 = chars_of(l3s.as_str());
                            let k3 = join_chars(&k2, &l3);
                            r.push(l1);
                            r.push(k2);
                            r.push(k3);
                        },
                    }
                },
            }
        },
    }
    assert(crate::text::char_views(r@) =~= path_keys(e@));
    r
}

/// The key of the deepest category a file belongs to.
fn leaf_key_of(e: &FileEntry) -> (r: Option<Vec<char>>)
    ensures
        match r {
            Some(k) => leaf_key(e@) == Some(k@),
            None => leaf_key(e@) is None,
        },
{
    match &e.category {
        None => None,
        Some(c) => {
            let l1 = chars_of(c.level1.as_str());
            match &c.level2 {
                None => Some(l1),
                Some(l2s) => {
                    let l2 = chars_of(l2s.as_str());
                    let k2 = join_chars(&l1, &l2);
                    match &c.level3 {
                        None => Some(k2),
                        Some(l3s) => {
                            let l3 = chars_of(l3s.as_str());
                            Some(join_chars(&k2, &l3))
                        },
                    }
                },
            }
        },
    }
}

/// Whether two character vectors are equal.
fn same_chars(a: &Vec<char>, b: &Vec<char>) -> (r: bool)
    ensures
        r == (a@ == b@),
{
    if a.len() != b.len() {
        return false;
    }
    let mut i: usize = 0;
    while i < a.len()
        invariant
            i <= a.len(),
            a.len() == b.len(),
            forall|k: int| 0 <= k < i ==> a@[k] == b@[k],
        decreases a.len() - i,
    {
        if a[i] != b[i] {
            assert(a@[i as int] != b@[i as int]);
            return false;
        }
        i += 1;
    }
    assert(a@ =~= b@);
    true
}

/// Whether `k` is among `ks`.
fn has_key(ks: &Vec<Vec<char>>, k: &Vec<char>) -> (r: bool)
    ensures
        r == crate::text::char_views(ks@).contains(k@),
{
    let mut i: usize = 0;
    while i < ks.len()
        invariant
            i <= ks.len(),
            forall|j: int| 0 <= j < i ==> ks@[j]@ != k@,
        decreases ks.len() - i,
    {
        if same_chars(&ks[i], k) {
            assert(crate::text::char_views(ks@)[i as int] == k@);
            return true;
        }
        i += 1;
    }
    assert forall|j: int| 0 <= j < ks@.len() implies crate::text::char_views(ks@)[j] != k@ by {
        assert(crate::text::char_views(ks@)[j] == ks@[j]@);
    }
    false
}

/// The keys of every category that some file lies in, each once, in order
/// of first appearance.
pub fn collect_category_keys(fs: &Vec<FileEntry>) -> (r: Vec<Vec<char>>)
    ensures
        crate::text::char_views(r@) == category_keys(entry_views(fs@)),
{
    let mut ks: Vec<Vec<char>> = Vec::new();
    let mut i: usize = 0;
    while i < fs.len()
        invariant
            i <= fs.len(),
            crate::text::char_views(ks@) == category_keys(entry_views(fs@).take(i as int)),
        decreases fs.len() - i,
    {
        let new = path_keys_of(&fs[i]);
        let ghost base = crate::text::char_views(ks@);
        let mut j: usize = 0;
        while j < new.len()
            invariant
                j <= new.len(),
                crate::text::char_views(ks@) == add_keys(
                    base,
                    crate::text::char_views(new@).take(j as int),
                ),
            decreases new.len() - j,
        {
            let ghost nv = crate::text::char_views(new@);
            assert(nv.take(j + 1).drop_last() =~= nv.take(j as int));
            assert(nv.take(j + 1).last() == new@[j as int]@);
            if !has_key(&ks, &new[j]) {
                let k = copy_chars(&new[j]);
                let ghost before = crate::text::char_views(ks@);
                ks.push(k);
                assert(crate::text::char_views(ks@) =~= before.push(k@));
            }
            j += 1;
        }
        let ghost fv = entry_views(fs@);
        assert(fv.take(i + 1).drop_last() =~= fv.take(i as int));
        assert(fv.take(i + 1).last() == fs@[i as int]@);
        assert(crate::text::char_views(new@).take(new.len() as int) =~= crate::text::char_views(
            new@,
        ));
        i += 1;
    }
    assert(entry_views(fs@).take(fs.len() as int) =~= entry_views(fs@));
    ks
}

/// The files whose deepest category has key `k`.
pub fn collect_files_at(fs: &Vec<FileEntry>, k: &Vec<char>) -> (r: Vec<FileEntry>)
    ensures
        entry_views(r@) == files_at(entry_views(fs@), k@),
{
    let mut r: Vec<FileEntry> = Vec::new();
    let mut i: usize = 0;
    while i < fs.len()
        invariant
            i <= fs.len(),
            entry_views(r@) == files_at(entry_views(fs@).take(i as int), k@),
        decreases fs.len() - i,
    {
        let ghost fv = entry_views(fs@);
        assert(fv.take(i + 1).drop_last() =~= fv.take(i as int));
        assert(fv.take(i + 1).last() == fs@[i as int]@);
        let lk = leaf_key_of(&fs[i]);
        let hit = match &lk {
            Some(key) => same_chars(key, k),
            None => false,
        };
        if hit {
            let e = copy_entry(&fs[i]);
            let ghost before = entry_views(r@);
            r.push(e);
            assert(entry_views(r@) =~= before.push(e@));
        }
        i += 1;
    }
    assert(entry_views(fs@).take(fs.len() as int) =~= entry_views(fs@));
    r
}

/// The files without a category.
pub fn collect_uncategorized(fs: &Vec<FileEntry>) -> (r: Vec<FileEntry>)
    ensures
        entry_views(r@) == uncategorized_files(entry_views(fs@)),
{
    let mut r: Vec<FileEntry> = Vec::new();
    let mut i: usize = 0;
    while i < fs.len()
        invariant
            i <= fs.len(),
            entry_views(r@) == uncategorized_files(entry_views(fs@).take(i as int)),
        decreases fs.len() - i,
    {
        let ghost fv = entry_views(fs@);
        assert(fv.take(i + 1).drop_last() =~= fv.take(i as int));
        assert(fv.take(i + 1).last() == fs@[i as int]@);
        if fs[i].category.is_none() {
            let e = copy_entry(&fs[i]);
            let ghost before = entry_views(r@);
            r.push(e);
            assert(entry_views(r@) =~= before.push(e@));
        }
        i += 1;
    }
    assert(entry_views(fs@).take(fs.len() as int) =~= entry_views(fs@));
    r
}

/// The number of `/` in a key.
fn count_slashes(k: &Vec<char>) -> (r: usize)
    ensures
        r == slash_count(k@),
{
    let mut n: usize = 0;
    let mut i: usize = 0;
    while i < k.len()
        invariant
            i <= k.len(),
            n == slash_count(k@.take(i as int)),
            n <= i,
        decreases k.len() - i,
    {
        assert(k@.take(i + 1).drop_last() =~= k@.take(i as int));
        if k[i] == '/' {
            n += 1;
        }
        i += 1;
    }
    assert(k@.take(k.len() as int) =~= k@);
    n
}

} // verus!

verus! {

// ---------------------------------------------------------------------------
// The category tree
// ---------------------------------------------------------------------------

/// A node of the category tree: a category with its subcategories and the
/// files filed directly under it.
#[derive(Debug)]
pub struct Category {
    pub id: String,
    pub name: String,
    pub level: u8,
    pub parent_id: Option<String>,
    pub children: Vec<Category>,
    pub files: Vec<FileEntry>,
}

/// The value of a `Category`.
pub struct CategoryView {
    pub id: Seq<char>,
    pub name: Seq<char>,
    pub level: u8,
    pub parent_id: Option<Seq<char>>,
    pub children: Seq<CategoryView>,
    pub files: Seq<FileEntryView>,
}

/// The value of a category node, its subtree included.
pub open spec fn category_view(c: Category) -> CategoryView
    decreases c,
{
    CategoryView {
        id: c.id@,
        name: c.name@,
        level: c.level,
        parent_id: opt_view(c.parent_id),
        children: Seq::new(
            c.children@.len(),
            |i: int|
                if 0 <= i < c.children@.len() {
                    category_view(c.children@[i])
                } else {
                    CategoryView {
                        id: Seq::empty(),
                        name: Seq::empty(),
                        level: 0,
                        parent_id: None,
                        children: Seq::empty(),
                        files: Seq::empty(),
                    }
                },
        ),
        files: entry_views(c.files@),
    }
}

/// The values of a sequence of category nodes.
pub open spec fn cat_views(v: Seq<Category>) -> Seq<CategoryView> {
    Seq::new(v.len(), |i: int| category_view(v[i]))
}

/// Whether `k` names a category `depth` slashes deep directly below
/// `parent`.
pub open spec fn is_child_key(parent: Seq<char>, k: Seq<char>, depth: nat) -> bool {
    crate::text::has_prefix(k, parent.push('/')) && slash_count(k) == depth
}

/// The third-level node with key `k` below `s`.
pub open spec fn leaf_node(fs: Seq<FileEntryView>, s: Seq<char>, k: Seq<char>) -> CategoryView {
    CategoryView {
        id: k,
        name: k.skip(s.len() + 1int),
        level: 3,
        parent_id: Some(s),
        children: Seq::empty(),
        files: files_at(fs, k),
    }
}

/// The third-level nodes below `s` among the keys `ks`, in order.
pub open spec fn leaf_nodes(fs: Seq<FileEntryView>, s: Seq<char>, ks: Seq<Seq<char>>) -> Seq<
    CategoryView,
>
    decreases ks.len(),
{
    if ks.len() == 0 {
        Seq::empty()
    } else {
        let r = leaf_nodes(fs, s, ks.drop_last());
        if is_child_key(s, ks.last(), 2) {
            r.push(leaf_node(fs, s, ks.last()))
        } else {
            r
        }
    }
}

/// The second-level node with key `k` below `p`.
pub open spec fn sub_node(fs: Seq<FileEntryView>, p: Seq<char>, k: Seq<char>) -> CategoryView {
    CategoryView {
        id: k,
        name: k.skip(p.len() + 1int),
        level: 2,
        parent_id: Some(p),
        children: leaf_nodes(fs, k, category_keys(fs)),
        files: files_at(fs, k),
    }
}

/// The second-level nodes below `p` among the keys `ks`, in order.
pub open spec fn sub_nodes(fs: Seq<FileEntryView>, p: Seq<char>, ks: Seq<Seq<char>>) -> Seq<
    CategoryView,
>
    decreases ks.len(),
{
    if ks.len() == 0 {
        Seq::empty()
    } else {
        let r = sub_nodes(fs, p, ks.drop_last());
        if is_child_key(p, ks.last(), 1) {
            r.push(sub_node(fs, p, ks.last()))
        } else {
            r
        }
    }
}

/// The first-level node with key `p`.
pub open spec fn root_node(fs: Seq<FileEntryView>, p: Seq<char>) -> CategoryView {
    CategoryView {
        id: p,
        name: p,
        level: 1,
        parent_id: None,
        children: sub_nodes(fs, p, category_keys(fs)),
        files: files_at(fs, p),
    }
}

/// The first-level nodes among the keys `ks` (those without a `/`), in
/// order.
pub open spec fn root_nodes(fs: Seq<FileEntryView>, ks: Seq<Seq<char>>) -> Seq<CategoryView>
    decreases ks.len(),
{
    if ks.len() == 0 {
        Seq::empty()
    } else {
        let r = root_nodes(fs, ks.drop_last());
        if slash_count(ks.last()) == 0 {
            r.push(root_node(fs, ks.last()))
        } else {
            r
        }
    }
}

/// The node that gathers the files without a category.
pub open spec fn uncategorized_node(fs: Seq<FileEntryView>) -> CategoryView {
    CategoryView {
        id: "uncategorized"@,
        name: "未分类"@,
        level: 1,
        parent_id: None,
        children: Seq::empty(),
        files: uncategorized_files(fs),
    }
}

/// The first-level nodes before sorting: the categories in order of first
/// appearance, then the uncategorized node when some file has no category.
pub open spec fn unsorted_roots(fs: Seq<FileEntryView>) -> Seq<CategoryView> {
    let r = root_nodes(fs, category_keys(fs));
    if uncategorized_files(fs).len() > 0 {
        r.push(uncategorized_node(fs))
    } else {
        r
    }
}

/// Lexicographic order of character sequences by code point, which is the
/// order of `String`'s `cmp` (UTF-8 preserves code point order).
pub open spec fn lex_le(a: Seq<char>, b: Seq<char>) -> bool
    decreases a.len(),
{
    if a.len() == 0 {
        true
    } else if b.len() == 0 {
        false
    } else if a[0] != b[0] {
        (a[0] as u32) < (b[0] as u32)
    } else {
        lex_le(a.drop_first(), b.drop_first())
    }
}

/// `t` with `x` inserted after the last node whose name is not greater than
/// `x`'s (the step of a stable insertion sort).
pub open spec fn insert_by_name(t: Seq<CategoryView>, x: CategoryView) -> Seq<CategoryView>
    decreases t.len(),
{
    if t.len() == 0 {
        seq![x]
    } else if lex_le(t.last().name, x.name) {
        t.push(x)
    } else {
        insert_by_name(t.drop_last(), x).push(t.last())
    }
}

/// `s` stably sorted by name.
pub open spec fn sort_by_name(s: Seq<CategoryView>) -> Seq<CategoryView>
    decreases s.len(),
{
    if s.len() == 0 {
        s
    } else {
        insert_by_name(sort_by_name(s.drop_last()), s.last())
    }
}

/// The category tree of a list of files: the first-level nodes sorted by
/// name.
pub open spec fn category_tree(fs: Seq<FileEntryView>) -> Seq<CategoryView> {
    sort_by_name(unsorted_roots(fs))
}

/// Whether `a` comes no later than `b` in code point order.
pub fn lex_le_chars(a: &Vec<char>, b: &Vec<char>) -> (r: bool)
    ensures
        r == lex_le(a@, b@),
{
    let mut i: usize = 0;
    assert(a@.skip(0) =~= a@);
    assert(b@.skip(0) =~= b@);
    while i < a.len() && i < b.len() && a[i] == b[i]
        invariant
            i <= a.len(),
            i <= b.len(),
            lex_le(a@, b@) == lex_le(a@.skip(i as int), b@.skip(i as int)),
        decreases a.len() - i,
    {
        assert(a@.skip(i as int).drop_first() =~= a@.skip(i + 1));
        assert(b@.skip(i as int).drop_first() =~= b@.skip(i + 1));
        i += 1;
    }
    if i == a.len() {
        true
    } else if i == b.len() {
        false
    } else {
        assert(a@.skip(i as int)[0] == a@[i as int]);
        assert(b@.skip(i as int)[0] == b@[i as int]);
        (a[i] as u32) < (b[i] as u32)
    }
}

} // verus!

verus! {

/// A category node with the given parts.
fn make_node(
    id: &Vec<char>,
    name: &Vec<char>,
    level: u8,
    parent: Option<&Vec<char>>,
    children: Vec<Category>,
    files: Vec<FileEntry>,
) -> (r: Category)
    ensures
        category_view(r) == (CategoryView {
            id: id@,
            name: name@,
            level,
            parent_id: match parent {
                Some(p) => Some(p@),
                None => None,
            },
            children: cat_views(children@),
            files: entry_views(files@),
        }),
{
    let parent_id = match parent {
        Some(p) => Some(string_of(p)),
        None => None,
    };
    let r = Category {
        id: string_of(id),
        name: string_of(name),
        level,
        parent_id,
        children,
        files,
    };
    assert(category_view(r).children =~= cat_views(r.children@));
    r
}

/// The characters of `k` from position `n` on.
fn skip_chars(k: &Vec<char>, n: usize) -> (r: Vec<char>)
    requires
        n <= k.len(),
    ensures
        r@ == k@.skip(n as int),
{
    let mut r: Vec<char> = Vec::new();
    let mut i = n;
    while i < k.len()
        invariant
            n <= i <= k.len(),
            r@ == k@.subrange(n as int, i as int),
        decreases k.len() - i,
    {
        r.push(k[i]);
        assert(k@.subrange(n as int, i + 1) =~= k@.subrange(n as int, i as int).push(k@[i as int]));
        i += 1;
    }
    assert(k@.subrange(n as int, k.len() as int) =~= k@.skip(n as int));
    r
}

/// Whether `k` names a category `depth` slashes deep directly below
/// `parent`.
fn child_key(parent: &Vec<char>, k: &Vec<char>, depth: usize) -> (r: bool)
    ensures
        r == is_child_key(parent@, k@, depth as nat),
{
    let mut p = copy_chars(parent);
    p.push('/');
    crate::text::starts_with_chars(k, &p) && count_slashes(k) == depth
}

/// Pushing a node onto a vector of nodes pushes its value.
proof fn lemma_cat_views_push(v: Seq<Category>, c: Category)
    ensures
        cat_views(v.push(c)) == cat_views(v).push(category_view(c)),
{
    assert(cat_views(v.push(c)) =~= cat_views(v).push(category_view(c)));
}

/// The third-level nodes below `s`.
fn build_leaf_nodes(fs: &Vec<FileEntry>, ks: &Vec<Vec<char>>, s: &Vec<char>) -> (r: Vec<Category>)
    ensures
        cat_views(r@) == leaf_nodes(entry_views(fs@), s@, crate::text::char_views(ks@)),
{
    let ghost fv = entry_views(fs@);
    let ghost kv = crate::text::char_views(ks@);
    let mut out: Vec<Category> = Vec::new();
    let mut i: usize = 0;
    while i < ks.len()
        invariant
            i <= ks.len(),
            fv == entry_views(fs@),
            kv == crate::text::char_views(ks@),
            cat_views(out@) == leaf_nodes(fv, s@, kv.take(i as int)),
        decreases ks.len() - i,
    {
        assert(kv.take(i + 1).drop_last() =~= kv.take(i as int));
        assert(kv.take(i + 1).last() == ks@[i as int]@);
        let k = &ks[i];
        if child_key(s, k, 2) {
            assert(s@.push('/').len() == s@.len() + 1);
            let kl = k.len();
            let vl = s.len();
            assert(vl < kl);
            let name = skip_chars(k, vl + 1);
            let files = collect_files_at(fs, k);
            let none: Vec<Category> = Vec::new();
            assert(cat_views(none@) =~= Seq::<CategoryView>::empty());
            let node = make_node(k, &name, 3, Some(s), none, files);
            proof {
                lemma_cat_views_push(out@, node);
            }
            out.push(node);
        }
        i += 1;
    }
    assert(kv.take(ks.len() as int) =~= kv);
    out
}

/// The second-level nodes below `p`.
fn build_sub_nodes(fs: &Vec<FileEntry>, ks: &Vec<Vec<char>>, p: &Vec<char>) -> (r: Vec<Category>)
    requires
        crate::text::char_views(ks@) == category_keys(entry_views(fs@)),
    ensures
        cat_views(r@) == sub_nodes(entry_views(fs@), p@, crate::text::char_views(ks@)),
{
    let ghost fv = entry_views(fs@);
    let ghost kv = crate::text::char_views(ks@);
    let mut out: Vec<Category> = Vec::new();
    let mut i: usize = 0;
    while i < ks.len()
        invariant
            i <= ks.len(),
            fv == entry_views(fs@),
            kv == crate::text::char_views(ks@),
            kv == category_keys(fv),
            cat_views(out@) == sub_nodes(fv, p@, kv.take(i as int)),
        decreases ks.len() - i,
    {
        assert(kv.take(i + 1).drop_last() =~= kv.take(i as int));
        assert(kv.take(i + 1).last() == ks@[i as int]@);
        let k = &ks[i];
        if child_key(p, k, 1) {
            assert(p@.push('/').len() == p@.len() + 1);
            let kl = k.len();
            let vl = p.len();
            assert(vl < kl);
            let name = skip_chars(k, vl + 1);
            let files = collect_files_at(fs, k);
            let children = build_leaf_nodes(fs, ks, k);
            let node = make_node(k, &name, 2, Some(p), children, files);
            proof {
                lemma_cat_views_push(out@, node);
            }
            out.push(node);
        }
        i += 1;
    }
    assert(kv.take(ks.len() as int) =~= kv);
    out
}

/// The first-level nodes, before sorting.
fn build_root_nodes(fs: &Vec<FileEntry>, ks: &Vec<Vec<char>>) -> (r: Vec<Category>)
    requires
        crate::text::char_views(ks@) == category_keys(entry_views(fs@)),
    ensures
        cat_views(r@) == root_nodes(entry_views(fs@), crate::text::char_views(ks@)),
{
    let ghost fv = entry_views(fs@);
    let ghost kv = crate::text::char_views(ks@);
    let mut out: Vec<Category> = Vec::new();
    let mut i: usize = 0;
    while i < ks.len()
        invariant
            i <= ks.len(),
            fv == entry_views(fs@),
            kv == crate::text::char_views(ks@),
            kv == category_keys(fv),
            cat_views(out@) == root_nodes(fv, kv.take(i as int)),
        decreases ks.len() - i,
    {
        assert(kv.take(i + 1).drop_last() =~= kv.take(i as int));
        assert(kv.take(i + 1).last() == ks@[i as int]@);
        let k = &ks[i];
        if count_slashes(k) == 0 {
            let files = collect_files_at(fs, k);
            let children = build_sub_nodes(fs, ks, k);
            let node = make_node(k, k, 1, None, children, files);
            proof {
                lemma_cat_views_push(out@, node);
            }
            out.push(node);
        }
        i += 1;
    }
    assert(kv.take(ks.len() as int) =~= kv);
    out
}

/// Inserting at the place that the stable insertion step picks.
proof fn lemma_insert_by_name_at(t: Seq<CategoryView>, x: CategoryView, j: int)
    requires
        0 <= j <= t.len(),
        forall|k: int| j <= k < t.len() ==> !lex_le(#[trigger] t[k].name, x.name),
        j == 0 || lex_le(t[j - 1].name, x.name),
    ensures
        insert_by_name(t, x) == t.insert(j, x),
    decreases t.len(),
{
    if t.len() == 0 {
        assert(t.insert(j, x) =~= seq![x]);
    } else if lex_le(t.last().name, x.name) {
        assert(j == t.len());
        assert(t.insert(j, x) =~= t.push(x));
    } else {
        lemma_insert_by_name_at(t.drop_last(), x, j);
        assert(t.drop_last().insert(j, x).push(t.last()) =~= t.insert(j, x));
    }
}

/// Sorts category nodes by name, stably.
fn sort_nodes(v: Vec<Category>) -> (r: Vec<Category>)
    ensures
        cat_views(r@) == sort_by_name(cat_views(v@)),
{
    let ghost orig = cat_views(v@);
    let mut rest = v;
    let n = rest.len();
    let mut sorted: Vec<Category> = Vec::new();
    let mut i: usize = 0;
    while rest.len() > 0
        invariant
            i + rest.len() == orig.len(),
            orig.len() == n,
            cat_views(rest@) == orig.skip(i as int),
            cat_views(sorted@) == sort_by_name(orig.take(i as int)),
        decreases rest.len(),
    {
        let ghost rv = cat_views(rest@);
        let x = rest.remove(0);
        assert(cat_views(rest@) =~= rv.drop_first());
        assert(rv[0] == category_view(x));
        assert(orig.take(i + 1).drop_last() =~= orig.take(i as int));
        assert(orig.take(i + 1).last() == orig.skip(i as int)[0]);
        let xname = chars_of(x.name.as_str());
        let mut j = sorted.len();
        while j > 0 && !lex_le_chars(&chars_of(sorted[j - 1].name.as_str()), &xname)
            invariant
                j <= sorted.len(),
                xname@ == x.name@,
                forall|k: int|
                    j <= k < sorted.len() ==> !lex_le(
                        #[trigger] cat_views(sorted@)[k].name,
                        category_view(x).name,
                    ),
            decreases j,
        {
            j -= 1;
        }
        let ghost sv = cat_views(sorted@);
        proof {
            lemma_insert_by_name_at(sv, category_view(x), j as int);
        }
        sorted.insert(j, x);
        assert(cat_views(sorted@) =~= sv.insert(j as int, category_view(x)));
        i += 1;
    }
    assert(orig.take(orig.len() as int) =~= orig);
    sorted
}

/// The category tree of a result list: one first-level node per category
/// key without a `/` (its second- and third-level nodes below it, each node
/// holding the files filed directly under it), plus an "uncategorized"
/// node when some file has no category, sorted by name.
pub fn build_category_tree(results: &SearchResult) -> (r: Vec<Category>)
    ensures
        cat_views(r@) == category_tree(stored_views(results.entries@)),
{
    let fs = entries_of(&results.entries);
    let ks = collect_category_keys(&fs);
    let mut roots = build_root_nodes(&fs, &ks);
    let uncategorized = collect_uncategorized(&fs);
    if uncategorized.len() > 0 {
        let id = chars_of("uncategorized");
        let name = chars_of("未分类");
        let none: Vec<Category> = Vec::new();
        assert(cat_views(none@) =~= Seq::<CategoryView>::empty());
        let node = make_node(&id, &name, 1, None, none, uncategorized);
        proof {
            lemma_cat_views_push(roots@, node);
        }
        roots.push(node);
    }
    sort_nodes(roots)
}

} // verus!

verus! {

// ---------------------------------------------------------------------------
// Filtering by category
// ---------------------------------------------------------------------------

/// Whether a file is shown when the category with id `cid` is selected:
/// its first level, its first two levels or all three levels (joined by
/// `/`) equal `cid`; a file without a category is shown for
/// `uncategorized`.
pub open spec fn matches_category(f: FileEntryView, cid: Seq<char>) -> bool {
    match f.category {
        Some(c) => {
            ||| c.level1 == cid
            ||| match c.level2 {
                Some(l2) => {
                    ||| join2(c.level1, l2) == cid
                    ||| match c.level3 {
                        Some(l3) => join3(c.level1, l2, l3) == cid,
                        None => false,
                    }
                },
                None => false,
            }
        },
        None => cid == "uncategorized"@,
    }
}

/// The files shown when the category `cid` is selected, in order.
pub open spec fn files_in_category(fs: Seq<FileEntryView>, cid: Seq<char>) -> Seq<FileEntryView>
    decreases fs.len(),
{
    if fs.len() == 0 {
        Seq::empty()
    } else {
        let r = files_in_category(fs.drop_last(), cid);
        if matches_category(fs.last(), cid) {
            r.push(fs.last())
        } else {
            r
        }
    }
}

/// The files shown for a selection: all of them when nothing is selected.
pub open spec fn shown_files(fs: Seq<FileEntryView>, selected: Option<Seq<char>>) -> Seq<
    FileEntryView,
> {
    match selected {
        Some(cid) => files_in_category(fs, cid),
        None => fs,
    }
}

/// Whether a file is shown when the category with id `cid` is selected.
fn file_matches(e: &FileEntry, cid: &Vec<char>) -> (r: bool)
    ensures
        r == matches_category(e@, cid@),
{
    match &e.category {
        Some(c) => {
            let l1 = chars_of(c.level1.as_str());
            if same_chars(&l1, cid) {
                return true;
            }
            match &c.level2 {
                Some(l2s) => {
                    let l2 = chars_of(l2s.as_str());
                    let k2 = join_chars(&l1, &l2);
                    if same_chars(&k2, cid) {
                        return true;
                    }
                    match &c.level3 {
                        Some(l3s) => {
                            let l3 = chars_of(l3s.as_str());
                            let k3 = join_chars(&k2, &l3);
                            same_chars(&k3, cid)
                        },
                        None => false,
                    }
                },
                None => false,
            }
        },
        None => {
            let u = chars_of("uncategorized");
            same_chars(&u, cid)
        },
    }
}

/// The browsing entries of a result list that the selected category (if
/// any) shows, in order.
pub fn filter_by_category(entries: &Vec<StoredFile>, selected: Option<&String>) -> (r: Vec<
    FileEntry,
>)
    ensures
        entry_views(r@) == shown_files(
            stored_views(entries@),
            match selected {
                Some(s) => Some(s@),
                None => None,
            },
        ),
{
    let all = entries_of(entries);
    match selected {
        None => all,
        Some(sel) => {
            let cid = chars_of(sel.as_str());
            let mut r: Vec<FileEntry> = Vec::new();
            let mut i: usize = 0;
            while i < all.len()
                invariant
                    i <= all.len(),
                    entry_views(r@) == files_in_category(
                        entry_views(all@).take(i as int),
                        cid@,
                    ),
                decreases all.len() - i,
            {
                let ghost fv = entry_views(all@);
                assert(fv.take(i + 1).drop_last() =~= fv.take(i as int));
                assert(fv.take(i + 1).last() == all@[i as int]@);
                if file_matches(&all[i], &cid) {
                    let e = copy_entry(&all[i]);
                    let ghost before = entry_views(r@);
                    r.push(e);
                    assert(entry_views(r@) =~= before.push(e@));
                }
                i += 1;
            }
            assert(entry_views(all@).take(all.len() as int) =~= entry_views(all@));
            r
        },
    }
}

// ---------------------------------------------------------------------------
// Laws
// ---------------------------------------------------------------------------

/// `lex_le` is total.
pub proof fn lemma_lex_le_total(a: Seq<char>, b: Seq<char>)
    ensures
        lex_le(a, b) || lex_le(b, a),
    decreases a.len(),
{
    if a.len() > 0 && b.len() > 0 && a[0] == b[0] {
        lemma_lex_le_total(a.drop_first(), b.drop_first());
    } else if a.len() > 0 && b.len() > 0 {
        vstd::utf8::char_u32_cast(a[0], a[0] as u32);
        vstd::utf8::char_u32_cast(b[0], b[0] as u32);
    }
}

/// `lex_le` is transitive.
pub proof fn lemma_lex_le_transitive(a: Seq<char>, b: Seq<char>, c: Seq<char>)
    requires
        lex_le(a, b),
        lex_le(b, c),
    ensures
        lex_le(a, c),
    decreases a.len(),
{
    if a.len() > 0 && b.len() > 0 && c.len() > 0 && a[0] == b[0] && b[0] == c[0] {
        lemma_lex_le_transitive(a.drop_first(), b.drop_first(), c.drop_first());
    }
}

/// Whether the nodes are in name order.
pub open spec fn sorted_by_name(s: Seq<CategoryView>) -> bool {
    forall|i: int, j: int| 0 <= i < j < s.len() ==> lex_le(#[trigger] s[i].name, #[trigger] s[j].name)
}

proof fn lemma_insert_keeps_sorted(t: Seq<CategoryView>, x: CategoryView)
    requires
        sorted_by_name(t),
    ensures
        sorted_by_name(insert_by_name(t, x)),
        insert_by_name(t, x).len() == t.len() + 1,
        insert_by_name(t, x).to_multiset() == t.to_multiset().insert(x),
    decreases t.len(),
{
    broadcast use vstd::seq_lib::group_to_multiset_ensures;
    if t.len() == 0 {
        assert(seq![x] =~= Seq::<CategoryView>::empty().push(x));
    } else if lex_le(t.last().name, x.name) {
        let r = t.push(x);
        assert forall|i: int, j: int| 0 <= i < j < r.len() implies lex_le(
            #[trigger] r[i].name,
            #[trigger] r[j].name,
        ) by {
            if j == r.len() - 1 && i < t.len() - 1 {
                lemma_lex_le_transitive(t[i].name, t.last().name, x.name);
            }
        }
    } else {
        let t1 = t.drop_last();
        assert(sorted_by_name(t1)) by {
            assert forall|i: int, j: int| 0 <= i < j < t1.len() implies lex_le(
                #[trigger] t1[i].name,
                #[trigger] t1[j].name,
            ) by {
                assert(t1[i] == t[i] && t1[j] == t[j]);
            }
        }
        lemma_insert_keeps_sorted(t1, x);
        let s1 = insert_by_name(t1, x);
        let r = s1.push(t.last());
        lemma_lex_le_total(t.last().name, x.name);
        assert forall|i: int, j: int| 0 <= i < j < r.len() implies lex_le(
            #[trigger] r[i].name,
            #[trigger] r[j].name,
        ) by {
            if j == r.len() - 1 {
                // every member of s1 is either x or a member of t1
                assert(s1.to_multiset().count(s1[i]) > 0);
                if s1[i] == x {
                } else {
                    assert(t1.to_multiset().count(s1[i]) > 0);
                    let k = choose|k: int| 0 <= k < t1.len() && t1[k] == s1[i];
                    assert(t[k] == t1[k]);
                }
            }
        }
        assert(t.to_multiset() == t1.to_multiset().insert(t.last())) by {
            assert(t1.push(t.last()) =~= t);
        }
    }
}

/// Stable insertion sort gives names in order and keeps every node.
pub proof fn lemma_sort_by_name_sorted(s: Seq<CategoryView>)
    ensures
        sorted_by_name(sort_by_name(s)),
        sort_by_name(s).to_multiset() == s.to_multiset(),
    decreases s.len(),
{
    broadcast use vstd::seq_lib::group_to_multiset_ensures;
    if s.len() > 0 {
        lemma_sort_by_name_sorted(s.drop_last());
        lemma_insert_keeps_sorted(sort_by_name(s.drop_last()), s.last());
        assert(s.drop_last().push(s.last()) =~= s);
    }
}

/// The first-level categories of the tree are in name order, and the tree
/// holds exactly the first-level nodes (the category roots and, when some
/// file lacks a category, the uncategorized node).
pub proof fn lemma_category_tree_sorted(fs: Seq<FileEntryView>)
    ensures
        sorted_by_name(category_tree(fs)),
        category_tree(fs).to_multiset() == unsorted_roots(fs).to_multiset(),
{
    lemma_sort_by_name_sorted(unsorted_roots(fs));
}

/// With no category selected every file is shown; with one selected, every
/// file shown matches it, and no file is shown twice more often than it
/// occurs.
pub proof fn lemma_shown_files_match(fs: Seq<FileEntryView>, cid: Seq<char>)
    ensures
        shown_files(fs, None) == fs,
        forall|i: int|
            0 <= i < files_in_category(fs, cid).len() ==> matches_category(
                #[trigger] files_in_category(fs, cid)[i],
                cid,
            ),
        files_in_category(fs, cid).len() <= fs.len(),
    decreases fs.len(),
{
    if fs.len() > 0 {
        lemma_shown_files_match(fs.drop_last(), cid);
        let r = files_in_category(fs.drop_last(), cid);
        let all = files_in_category(fs, cid);
        assert forall|i: int| 0 <= i < all.len() implies matches_category(
            #[trigger] all[i],
            cid,
        ) by {
            if i < r.len() {
                assert(all[i] == r[i]);
            }
        }
    }
}

} // verus!

verus! {

// ---------------------------------------------------------------------------
// Sorted sets of names
// ---------------------------------------------------------------------------

/// The character order is antisymmetric.
pub proof fn lemma_lex_le_antisymmetric(a: Seq<char>, b: Seq<char>)
    requires
        lex_le(a, b),
        lex_le(b, a),
    ensures
        a == b,
    decreases a.len(),
{
    if a.len() == 0 {
        assert(a =~= b);
    } else {
        if a[0] == b[0] {
            lemma_lex_le_antisymmetric(a.drop_first(), b.drop_first());
            assert(a =~= seq![a[0]] + a.drop_first());
            assert(b =~= seq![b[0]] + b.drop_first());
        } else {
            vstd::utf8::char_u32_cast(a[0], a[0] as u32);
            vstd::utf8::char_u32_cast(b[0], b[0] as u32);
        }
    }
}

/// `a` comes strictly before `b` in character order (`String`'s `<`).
pub open spec fn lex_lt(a: Seq<char>, b: Seq<char>) -> bool {
    lex_le(a, b) && a != b
}

/// Names in strictly increasing order.
pub open spec fn strictly_sorted(s: Seq<Seq<char>>) -> bool {
    forall|i: int, j: int| 0 <= i < j < s.len() ==> lex_lt(#[trigger] s[i], #[trigger] s[j])
}

/// Inserts a name that is not there yet into a strictly sorted list.
pub fn insert_sorted(v: &mut Vec<String>, s: String)
    requires
        strictly_sorted(views(old(v)@)),
        !views(old(v)@).contains(s@),
    ensures
        strictly_sorted(views(final(v)@)),
        views(final(v)@).to_set() == views(old(v)@).to_set().insert(s@),
        final(v)@.len() == old(v)@.len() + 1,
{
    let ghost old_v = views(v@);
    let sc = crate::text::chars_of(s.as_str());
    let mut i: usize = 0;
    let mut done = false;
    while i < v.len() && !done
        invariant
            i <= v.len(),
            old_v == views(v@),
            !old_v.contains(s@),
            sc@ == s@,
            forall|k: int| 0 <= k < i ==> lex_lt(#[trigger] old_v[k], s@),
            done ==> i < v.len() && !lex_le(old_v[i as int], s@),
        decreases v.len() - i + (if done {
            0int
        } else {
            1int
        }),
    {
        let vc = crate::text::chars_of(v[i].as_str());
        assert(old_v[i as int] == v@[i as int]@);
        if !lex_le_chars(&vc, &sc) {
            done = true;
        } else {
            assert(old_v[i as int] != s@);
            i += 1;
        }
    }
    proof {
        if i < v.len() {
            lemma_lex_le_total(old_v[i as int], s@);
        }
    }
    v.insert(i, s);
    let ghost nv = views(v@);
    assert(nv =~= old_v.insert(i as int, s@));
    assert forall|a: int, b: int| 0 <= a < b < nv.len() implies lex_lt(#[trigger] nv[a], #[trigger] nv[b]) by {
        if b < i {
            assert(nv[a] == old_v[a] && nv[b] == old_v[b]);
        } else if b == i {
            assert(nv[a] == old_v[a]);
        } else if a == i {
            assert(nv[b] == old_v[b - 1]);
            if b - 1 > i {
                assert(lex_lt(old_v[i as int], old_v[b - 1]));
                lemma_lex_le_transitive(s@, old_v[i as int], old_v[b - 1]);
                if s@ == old_v[b - 1] {
                    lemma_lex_le_antisymmetric(s@, old_v[i as int]);
                }
            }
        } else if a < i {
            assert(nv[a] == old_v[a] && nv[b] == old_v[b - 1]);
            assert(lex_lt(old_v[a], s@));
            if b - 1 >= i as int {
                if b - 1 > i {
                    assert(lex_lt(old_v[i as int], old_v[b - 1]));
                    lemma_lex_le_transitive(s@, old_v[i as int], old_v[b - 1]);
                }
                lemma_lex_le_transitive(old_v[a], s@, old_v[b - 1]);
                if old_v[a] == old_v[b - 1] {
                    lemma_lex_le_antisymmetric(old_v[a], s@);
                }
            }
        } else {
            assert(nv[a] == old_v[a - 1] && nv[b] == old_v[b - 1]);
        }
    }
    assert(nv.to_set() =~= old_v.to_set().insert(s@)) by {
        assert forall|x: Seq<char>| nv.contains(x) <==> (old_v.contains(x) || x == s@) by {
            if nv.contains(x) {
                let k = choose|k: int| 0 <= k < nv.len() && nv[k] == x;
                if k < i {
                    assert(old_v[k] == x);
                } else if k > i {
                    assert(old_v[k - 1] == x);
                }
            }
            if old_v.contains(x) {
                let k = choose|k: int| 0 <= k < old_v.len() && old_v[k] == x;
                if k < i {
                    assert(nv[k] == x);
                } else {
                    assert(nv[k + 1] == x);
                }
            }
            if x == s@ {
                assert(nv[i as int] == x);
            }
        }
    }
}

/// The distinct names of a list, in strictly increasing order.
pub fn sorted_distinct(items: &Vec<String>) -> (r: Vec<String>)
    ensures
        strictly_sorted(views(r@)),
        views(r@).to_set() == views(items@).to_set(),
{
    let mut r: Vec<String> = Vec::new();
    let mut i: usize = 0;
    assert(views(r@).to_set() =~= views(items@).take(0).to_set());
    while i < items.len()
        invariant
            i <= items.len(),
            strictly_sorted(views(r@)),
            views(r@).to_set() == views(items@).take(i as int).to_set(),
        decreases items.len() - i,
    {
        let ghost t = views(items@).take(i as int);
        assert(views(items@).take(i + 1) =~= t.push(items@[i as int]@));
        assert(views(items@).take(i + 1).to_set() =~= t.to_set().insert(items@[i as int]@)) by {
            let t1 = views(items@).take(i + 1);
            assert forall|x: Seq<char>| t1.contains(x) <==> (t.contains(x) || x == items@[i as int]@) by {
                if t1.contains(x) {
                    let k = choose|k: int| 0 <= k < t1.len() && t1[k] == x;
                    if k < i {
                        assert(t[k] == x);
                    }
                }
                if t.contains(x) {
                    let k = choose|k: int| 0 <= k < t.len() && t[k] == x;
                    assert(t1[k] == x);
                }
                if x == items@[i as int]@ {
                    assert(t1[i as int] == x);
                }
            }
        }
        if !crate::text::has_text(&r, &items[i]) {
            let s = items[i].clone();
            insert_sorted(&mut r, s);
        } else {
            assert(views(r@).to_set().insert(items@[i as int]@) =~= views(r@).to_set());
        }
        i += 1;
    }
    assert(views(items@).take(items.len() as int) =~= views(items@));
    r
}

} // verus!

verus! {

// ---------------------------------------------------------------------------
// Where the category tree files each file
// ---------------------------------------------------------------------------

/// Whether a category name holds no `/`.
pub open spec fn plain_name(s: Seq<char>) -> bool {
    forall|i: int| 0 <= i < s.len() ==> s[i] != '/'
}

/// Whether every level of a category path is a plain name.
pub open spec fn plain_path(c: CategoryPathView) -> bool {
    &&& plain_name(c.level1)
    &&& (c.level2 is Some ==> plain_name(c.level2->0))
    &&& (c.level3 is Some ==> plain_name(c.level3->0))
}

/// Whether the first-level node `r` holds the file `f` of path `c` where it
/// belongs: in its own files when `c` has one level; otherwise in the files
/// of its child for the second level (id `a/b`, name `b`), or, with three
/// levels, in the files of that child's child for the third level (id
/// `a/b/c`, name `c`).
pub open spec fn holds_under(r: CategoryView, f: FileEntryView, c: CategoryPathView) -> bool {
    match c.level2 {
        None => r.files.contains(f),
        Some(b) => exists|s: CategoryView|
            #![trigger r.children.contains(s)]
            {
                &&& r.children.contains(s)
                &&& s.id == join2(c.level1, b)
                &&& s.name == b
                &&& s.level == 2
                &&& s.parent_id == Some(r.id)
                &&& match c.level3 {
                    None => s.files.contains(f),
                    Some(x) => exists|t: CategoryView|
                        #![trigger s.children.contains(t)]
                        {
                            &&& s.children.contains(t)
                            &&& t.id == join3(c.level1, b, x)
                            &&& t.name == x
                            &&& t.level == 3
                            &&& t.parent_id == Some(s.id)
                            &&& t.files.contains(f)
                        },
                }
            },
    }
}

proof fn lemma_contains_push<A>(s: Seq<A>, x: A, y: A)
    requires
        s.contains(y) || y == x,
    ensures
        s.push(x).contains(y),
{
    if y == x {
        assert(s.push(x)[s.len() as int] == x);
    } else {
        let j = choose|j: int| 0 <= j < s.len() && s[j] == y;
        assert(s.push(x)[j] == y);
    }
}

proof fn lemma_contains_drop_last<A>(s: Seq<A>, y: A)
    requires
        s.len() > 0,
        s.contains(y),
        y != s.last(),
    ensures
        s.drop_last().contains(y),
{
    let j = choose|j: int| 0 <= j < s.len() && s[j] == y;
    assert(s.drop_last()[j] == y);
}

proof fn lemma_slash_count_plain(s: Seq<char>)
    requires
        plain_name(s),
    ensures
        slash_count(s) == 0,
    decreases s.len(),
{
    if s.len() > 0 {
        lemma_slash_count_plain(s.drop_last());
    }
}

proof fn lemma_slash_count_append(a: Seq<char>, b: Seq<char>)
    ensures
        slash_count(a + b) == slash_count(a) + slash_count(b),
    decreases b.len(),
{
    if b.len() == 0 {
        assert(a + b =~= a);
    } else {
        lemma_slash_count_append(a, b.drop_last());
        assert((a + b).drop_last() =~= a + b.drop_last());
    }
}

/// A joined key of a parent and a plain name lies directly below the
/// parent, one more `/` deep, and its name is the plain name.
proof fn lemma_join2_child(a: Seq<char>, b: Seq<char>)
    requires
        plain_name(b),
    ensures
        is_child_key(a, join2(a, b), slash_count(a) + 1),
        join2(a, b).skip(a.len() + 1int) == b,
{
    let k = join2(a, b);
    assert(k.take(a.len() + 1int) =~= a.push('/'));
    assert(k.skip(a.len() + 1int) =~= b);
    lemma_slash_count_append(a + seq!['/'], b);
    lemma_slash_count_append(a, seq!['/']);
    lemma_slash_count_plain(b);
    let one = seq!['/'];
    assert(one.drop_last() =~= Seq::<char>::empty());
    assert(slash_count(one.drop_last()) == 0);
    assert(one.last() == '/');
    assert(slash_count(one) == 1);
}

proof fn lemma_add_keys_contains(ks: Seq<Seq<char>>, new: Seq<Seq<char>>, x: Seq<char>)
    requires
        ks.contains(x) || new.contains(x),
    ensures
        add_keys(ks, new).contains(x),
    decreases new.len(),
{
    if new.len() > 0 {
        let k2 = add_keys(ks, new.drop_last());
        if x == new.last() {
            if !k2.contains(x) {
                lemma_contains_push(k2, x, x);
            }
        } else {
            if new.contains(x) {
                lemma_contains_drop_last(new, x);
            }
            lemma_add_keys_contains(ks, new.drop_last(), x);
            if !k2.contains(new.last()) {
                lemma_contains_push(k2, new.last(), x);
            }
        }
    }
}

proof fn lemma_category_keys_contains(fs: Seq<FileEntryView>, i: int, x: Seq<char>)
    requires
        0 <= i < fs.len(),
        path_keys(fs[i]).contains(x),
    ensures
        category_keys(fs).contains(x),
    decreases fs.len(),
{
    if i < fs.len() - 1 {
        assert(fs.drop_last()[i] == fs[i]);
        lemma_category_keys_contains(fs.drop_last(), i, x);
    }
    lemma_add_keys_contains(category_keys(fs.drop_last()), path_keys(fs.last()), x);
}

proof fn lemma_files_at_contains(fs: Seq<FileEntryView>, i: int, k: Seq<char>)
    requires
        0 <= i < fs.len(),
        leaf_key(fs[i]) == Some(k),
    ensures
        files_at(fs, k).contains(fs[i]),
    decreases fs.len(),
{
    let r = files_at(fs.drop_last(), k);
    if i < fs.len() - 1 {
        assert(fs.drop_last()[i] == fs[i]);
        lemma_files_at_contains(fs.drop_last(), i, k);
        if leaf_key(fs.last()) == Some(k) {
            lemma_contains_push(r, fs.last(), fs[i]);
        }
    } else {
        lemma_contains_push(r, fs.last(), fs[i]);
    }
}

proof fn lemma_root_nodes_contains(fs: Seq<FileEntryView>, ks: Seq<Seq<char>>, k: Seq<char>)
    requires
        ks.contains(k),
        slash_count(k) == 0,
    ensures
        root_nodes(fs, ks).contains(root_node(fs, k)),
    decreases ks.len(),
{
    let r = root_nodes(fs, ks.drop_last());
    if ks.last() == k {
        lemma_contains_push(r, root_node(fs, k), root_node(fs, k));
    } else {
        lemma_contains_drop_last(ks, k);
        lemma_root_nodes_contains(fs, ks.drop_last(), k);
        if slash_count(ks.last()) == 0 {
            lemma_contains_push(r, root_node(fs, ks.last()), root_node(fs, k));
        }
    }
}

proof fn lemma_sub_nodes_contains(fs: Seq<FileEntryView>, p: Seq<char>, ks: Seq<Seq<char>>, k: Seq<char>)
    requires
        ks.contains(k),
        is_child_key(p, k, 1),
    ensures
        sub_nodes(fs, p, ks).contains(sub_node(fs, p, k)),
    decreases ks.len(),
{
    let r = sub_nodes(fs, p, ks.drop_last());
    if ks.last() == k {
        lemma_contains_push(r, sub_node(fs, p, k), sub_node(fs, p, k));
    } else {
        lemma_contains_drop_last(ks, k);
        lemma_sub_nodes_contains(fs, p, ks.drop_last(), k);
        if is_child_key(p, ks.last(), 1) {
            lemma_contains_push(r, sub_node(fs, p, ks.last()), sub_node(fs, p, k));
        }
    }
}

proof fn lemma_leaf_nodes_contains(fs: Seq<FileEntryView>, s: Seq<char>, ks: Seq<Seq<char>>, k: Seq<char>)
    requires
        ks.contains(k),
        is_child_key(s, k, 2),
    ensures
        leaf_nodes(fs, s, ks).contains(leaf_node(fs, s, k)),
    decreases ks.len(),
{
    let r = leaf_nodes(fs, s, ks.drop_last());
    if ks.last() == k {
        lemma_contains_push(r, leaf_node(fs, s, k), leaf_node(fs, s, k));
    } else {
        lemma_contains_drop_last(ks, k);
        lemma_leaf_nodes_contains(fs, s, ks.drop_last(), k);
        if is_child_key(s, ks.last(), 2) {
            lemma_contains_push(r, leaf_node(fs, s, ks.last()), leaf_node(fs, s, k));
        }
    }
}

proof fn lemma_insert_by_name_contains(t: Seq<CategoryView>, x: CategoryView, y: CategoryView)
    requires
        t.contains(y) || y == x,
    ensures
        insert_by_name(t, x).contains(y),
    decreases t.len(),
{
    if t.len() == 0 {
        assert(seq![x][0] == x);
    } else if lex_le(t.last().name, x.name) {
        lemma_contains_push(t, x, y);
    } else {
        let u = insert_by_name(t.drop_last(), x);
        if y == t.last() {
            lemma_contains_push(u, t.last(), y);
        } else {
            if t.contains(y) {
                lemma_contains_drop_last(t, y);
            }
            lemma_insert_by_name_contains(t.drop_last(), x, y);
            lemma_contains_push(u, t.last(), y);
        }
    }
}

proof fn lemma_sort_by_name_contains(s: Seq<CategoryView>, y: CategoryView)
    requires
        s.contains(y),
    ensures
        sort_by_name(s).contains(y),
    decreases s.len(),
{
    if y == s.last() {
        lemma_insert_by_name_contains(sort_by_name(s.drop_last()), s.last(), y);
    } else {
        lemma_contains_drop_last(s, y);
        lemma_sort_by_name_contains(s.drop_last(), y);
        lemma_insert_by_name_contains(sort_by_name(s.drop_last()), s.last(), y);
    }
}

/// Every file with a category (whose levels hold no `/`) is reachable in
/// the category tree at its deepest category: under the first-level node
/// named by its first level, in that node's files, or in the files of the
/// second-level child `a/b`, or in the files of the third-level child
/// `a/b/c` of that child.
pub proof fn lemma_category_tree_files_reachable(fs: Seq<FileEntryView>, i: int)
    requires
        0 <= i < fs.len(),
        fs[i].category is Some,
        plain_path(fs[i].category->0),
    ensures
        exists|r: CategoryView|
            #![trigger category_tree(fs).contains(r)]
            {
                &&& category_tree(fs).contains(r)
                &&& r.id == fs[i].category->0.level1
                &&& r.name == fs[i].category->0.level1
                &&& r.level == 1
                &&& r.parent_id is None
                &&& holds_under(r, fs[i], fs[i].category->0)
            },
{
    let f = fs[i];
    let c = f.category->0;
    let a = c.level1;
    let ks = category_keys(fs);
    lemma_slash_count_plain(a);
    assert(path_keys(f)[0] == a);
    lemma_category_keys_contains(fs, i, a);
    lemma_root_nodes_contains(fs, ks, a);
    let r = root_node(fs, a);
    let roots = root_nodes(fs, ks);
    if uncategorized_files(fs).len() > 0 {
        lemma_contains_push(roots, uncategorized_node(fs), r);
    }
    lemma_sort_by_name_contains(unsorted_roots(fs), r);
    match c.level2 {
        None => {
            lemma_files_at_contains(fs, i, a);
        },
        Some(b) => {
            let k2 = join2(a, b);
            lemma_join2_child(a, b);
            assert(path_keys(f)[1] == k2);
            lemma_category_keys_contains(fs, i, k2);
            lemma_sub_nodes_contains(fs, a, ks, k2);
            let s = sub_node(fs, a, k2);
            assert(r.children.contains(s));
            match c.level3 {
                None => {
                    lemma_files_at_contains(fs, i, k2);
                },
                Some(x) => {
                    let k3 = join3(a, b, x);
                    lemma_join2_child(k2, x);
                    assert(path_keys(f)[2] == k3);
                    lemma_category_keys_contains(fs, i, k3);
                    lemma_leaf_nodes_contains(fs, k2, ks, k3);
                    lemma_files_at_contains(fs, i, k3);
                    let t = leaf_node(fs, k2, k3);
                    assert(s.children.contains(t));
                },
            }
        },
    }
    assert(category_tree(fs).contains(r));
}

/// Whether every file a node holds is a file of `fs` that belongs there:
/// its deepest category is the node's id, or the node gathers the files
/// without a category and the file has none.
pub open spec fn holds_own_files(fs: Seq<FileEntryView>, n: CategoryView) -> bool {
    forall|f: FileEntryView|
        #[trigger] n.files.contains(f) ==> fs.contains(f) && (leaf_key(f) == Some(n.id) || (n.id
            == "uncategorized"@ && f.category is None))
}

proof fn lemma_contains_pushed<A>(s: Seq<A>, x: A, y: A)
    requires
        s.push(x).contains(y),
    ensures
        s.contains(y) || y == x,
{
    let j = choose|j: int| 0 <= j < s.push(x).len() && s.push(x)[j] == y;
    if j < s.len() {
        assert(s[j] == y);
    }
}

proof fn lemma_files_at_only(fs: Seq<FileEntryView>, k: Seq<char>, f: FileEntryView)
    requires
        files_at(fs, k).contains(f),
    ensures
        fs.contains(f),
        leaf_key(f) == Some(k),
    decreases fs.len(),
{
    let r = files_at(fs.drop_last(), k);
    if leaf_key(fs.last()) == Some(k) {
        lemma_contains_pushed(r, fs.last(), f);
    }
    if f == fs.last() && leaf_key(fs.last()) == Some(k) {
        assert(fs[fs.len() - 1] == f);
    } else {
        lemma_files_at_only(fs.drop_last(), k, f);
        let j = choose|j: int| 0 <= j < fs.drop_last().len() && fs.drop_last()[j] == f;
        assert(fs[j] == f);
    }
}

proof fn lemma_uncategorized_only(fs: Seq<FileEntryView>, f: FileEntryView)
    requires
        uncategorized_files(fs).contains(f),
    ensures
        fs.contains(f),
        f.category is None,
    decreases fs.len(),
{
    let r = uncategorized_files(fs.drop_last());
    if fs.last().category is None {
        lemma_contains_pushed(r, fs.last(), f);
    }
    if f == fs.last() && fs.last().category is None {
        assert(fs[fs.len() - 1] == f);
    } else {
        lemma_uncategorized_only(fs.drop_last(), f);
        let j = choose|j: int| 0 <= j < fs.drop_last().len() && fs.drop_last()[j] == f;
        assert(fs[j] == f);
    }
}

proof fn lemma_root_nodes_only(fs: Seq<FileEntryView>, ks: Seq<Seq<char>>, r: CategoryView)
    requires
        root_nodes(fs, ks).contains(r),
    ensures
        r == root_node(fs, r.id),
    decreases ks.len(),
{
    let t = root_nodes(fs, ks.drop_last());
    if slash_count(ks.last()) == 0 {
        lemma_contains_pushed(t, root_node(fs, ks.last()), r);
        if r != root_node(fs, ks.last()) {
            lemma_root_nodes_only(fs, ks.drop_last(), r);
        }
    } else {
        lemma_root_nodes_only(fs, ks.drop_last(), r);
    }
}

proof fn lemma_sub_nodes_only(fs: Seq<FileEntryView>, p: Seq<char>, ks: Seq<Seq<char>>, r: CategoryView)
    requires
        sub_nodes(fs, p, ks).contains(r),
    ensures
        r == sub_node(fs, p, r.id),
    decreases ks.len(),
{
    let t = sub_nodes(fs, p, ks.drop_last());
    if is_child_key(p, ks.last(), 1) {
        lemma_contains_pushed(t, sub_node(fs, p, ks.last()), r);
        if r != sub_node(fs, p, ks.last()) {
            lemma_sub_nodes_only(fs, p, ks.drop_last(), r);
        }
    } else {
        lemma_sub_nodes_only(fs, p, ks.drop_last(), r);
    }
}

proof fn lemma_leaf_nodes_only(fs: Seq<FileEntryView>, p: Seq<char>, ks: Seq<Seq<char>>, r: CategoryView)
    requires
        leaf_nodes(fs, p, ks).contains(r),
    ensures
        r == leaf_node(fs, p, r.id),
    decreases ks.len(),
{
    let t = leaf_nodes(fs, p, ks.drop_last());
    if is_child_key(p, ks.last(), 2) {
        lemma_contains_pushed(t, leaf_node(fs, p, ks.last()), r);
        if r != leaf_node(fs, p, ks.last()) {
            lemma_leaf_nodes_only(fs, p, ks.drop_last(), r);
        }
    } else {
        lemma_leaf_nodes_only(fs, p, ks.drop_last(), r);
    }
}

proof fn lemma_insert_by_name_only(t: Seq<CategoryView>, x: CategoryView, y: CategoryView)
    requires
        insert_by_name(t, x).contains(y),
    ensures
        t.contains(y) || y == x,
    decreases t.len(),
{
    if t.len() == 0 {
        assert(seq![x][0] == x);
    } else if lex_le(t.last().name, x.name) {
        lemma_contains_pushed(t, x, y);
    } else {
        let u = insert_by_name(t.drop_last(), x);
        lemma_contains_pushed(u, t.last(), y);
        if y == t.last() {
            assert(t[t.len() - 1] == y);
        } else {
            lemma_insert_by_name_only(t.drop_last(), x, y);
            if t.drop_last().contains(y) {
                let j = choose|j: int| 0 <= j < t.drop_last().len() && t.drop_last()[j] == y;
                assert(t[j] == y);
            }
        }
    }
}

proof fn lemma_sort_by_name_only(s: Seq<CategoryView>, y: CategoryView)
    requires
        sort_by_name(s).contains(y),
    ensures
        s.contains(y),
    decreases s.len(),
{
    if s.len() > 0 {
        lemma_insert_by_name_only(sort_by_name(s.drop_last()), s.last(), y);
        if y == s.last() {
            assert(s[s.len() - 1] == y);
        } else {
            lemma_sort_by_name_only(s.drop_last(), y);
            let j = choose|j: int| 0 <= j < s.drop_last().len() && s.drop_last()[j] == y;
            assert(s[j] == y);
        }
    }
}

/// Every node of the category tree, at each of the three levels, holds
/// only files of the list that belong to it (whose deepest category is the
/// node, or, for the uncategorized node, that have no category), and the
/// third-level nodes have no children.
pub proof fn lemma_category_tree_files_belong(fs: Seq<FileEntryView>)
    ensures
        forall|r: CategoryView| #[trigger] category_tree(fs).contains(r) ==> {
            &&& holds_own_files(fs, r)
            &&& forall|s: CategoryView| #[trigger] r.children.contains(s) ==> {
                &&& holds_own_files(fs, s)
                &&& forall|t: CategoryView| #[trigger] s.children.contains(t) ==> holds_own_files(fs, t)
                    && t.children.len() == 0
            }
        },
{
    let ks = category_keys(fs);
    assert forall|r: CategoryView| #[trigger] category_tree(fs).contains(r) implies {
        &&& holds_own_files(fs, r)
        &&& forall|s: CategoryView| #[trigger] r.children.contains(s) ==> {
            &&& holds_own_files(fs, s)
            &&& forall|t: CategoryView| #[trigger] s.children.contains(t) ==> holds_own_files(fs, t)
                && t.children.len() == 0
        }
    } by {
        lemma_sort_by_name_only(unsorted_roots(fs), r);
        let roots = root_nodes(fs, ks);
        if uncategorized_files(fs).len() > 0 {
            lemma_contains_pushed(roots, uncategorized_node(fs), r);
        }
        if uncategorized_files(fs).len() > 0 && r == uncategorized_node(fs) {
            assert forall|f: FileEntryView| #[trigger] r.files.contains(f) implies fs.contains(f) && (leaf_key(f)
                == Some(r.id) || (r.id == "uncategorized"@ && f.category is None)) by {
                lemma_uncategorized_only(fs, f);
            }
        } else {
            lemma_root_nodes_only(fs, ks, r);
            assert forall|f: FileEntryView| #[trigger] r.files.contains(f) implies fs.contains(f) && (leaf_key(f)
                == Some(r.id) || (r.id == "uncategorized"@ && f.category is None)) by {
                lemma_files_at_only(fs, r.id, f);
            }
            assert forall|s: CategoryView| #[trigger] r.children.contains(s) implies {
                &&& holds_own_files(fs, s)
                &&& forall|t: CategoryView| #[trigger] s.children.contains(t) ==> holds_own_files(fs, t)
                    && t.children.len() == 0
            } by {
                lemma_sub_nodes_only(fs, r.id, ks, s);
                assert forall|f: FileEntryView| #[trigger] s.files.contains(f) implies fs.contains(f) && (leaf_key(f)
                    == Some(s.id) || (s.id == "uncategorized"@ && f.category is None)) by {
                    lemma_files_at_only(fs, s.id, f);
                }
                assert forall|t: CategoryView| #[trigger] s.children.contains(t) implies holds_own_files(fs, t)
                    && t.children.len() == 0 by {
                    lemma_leaf_nodes_only(fs, s.id, ks, t);
                    assert forall|f: FileEntryView| #[trigger] t.files.contains(f) implies fs.contains(f) && (leaf_key(f)
                        == Some(t.id) || (t.id == "uncategorized"@ && f.category is None)) by {
                        lemma_files_at_only(fs, t.id, f);
                    }
                }
            }
        }
    }
}

} // verus!
