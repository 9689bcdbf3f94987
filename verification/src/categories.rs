//! The category manager: a table of named categories, each with its parent,
//! its subcategories, a description, a file count and its depth (at most
//! three levels). It is loaded from the files' category fields and edited
//! by adding, renaming or moving, and deleting categories, with the checks
//! that keep names unique and the hierarchy free of cycles.

use vstd::prelude::*;

use crate::library::{copy_opt, opt_view, sorted_distinct, strictly_sorted, StoredFile};
use crate::text::{chars_of, trim, trim_str, views};

verus! {

broadcast use vstd::string::group_string_axioms;

/// One category of the table.
#[derive(Clone, Debug)]
pub struct CategoryInfo {
    pub name: String,
    pub parent: Option<String>,
    pub children: Vec<String>,
    pub description: Option<String>,
    pub file_count: usize,
    pub level: usize,
}

/// The value of a `CategoryInfo`.
pub struct InfoView {
    pub name: Seq<char>,
    pub parent: Option<Seq<char>>,
    pub children: Seq<Seq<char>>,
    pub description: Option<Seq<char>>,
    pub file_count: nat,
    pub level: nat,
}

impl View for CategoryInfo {
    type V = InfoView;

    open spec fn view(&self) -> InfoView {
        InfoView {
            name: self.name@,
            parent: opt_view(self.parent),
            children: views(self.children@),
            description: opt_view(self.description),
            file_count: self.file_count as nat,
            level: self.level as nat,
        }
    }
}

/// The values of a sequence of categories.
pub open spec fn info_views(v: Seq<CategoryInfo>) -> Seq<InfoView> {
    v.map_values(|c: CategoryInfo| c@)
}

/// The names of a sequence of categories.
pub open spec fn names(s: Seq<InfoView>) -> Seq<Seq<char>> {
    s.map_values(|i: InfoView| i.name)
}

/// The table of a sequence of categories, keyed by name.
pub open spec fn table(s: Seq<InfoView>) -> Map<Seq<char>, InfoView>
    decreases s.len(),
{
    if s.len() == 0 {
        Map::empty()
    } else {
        table(s.drop_last()).insert(s.last().name, s.last())
    }
}

/// Why an edit of the category table is refused.
#[derive(Clone, Copy, Debug, PartialEq, Eq, Structural)]
pub enum CategoryError {
    /// "Category name cannot be empty"
    EmptyName,
    /// "Category name already exists"
    NameExists,
    /// "Cannot create circular reference in category hierarchy"
    CircularReference,
    /// "Maximum category depth is 3 levels"
    TooDeep,
    /// "No category selected"
    NoSelection,
    /// "Cannot delete category with subcategories. Move or delete subcategories first."
    HasSubcategories,
}

impl CategoryError {
    /// The message shown for the error.
    pub fn message(&self) -> (r: &'static str)
        ensures
            r@ == category_error_text(*self),
    {
        match self {
            CategoryError::EmptyName => "Category name cannot be empty",
            CategoryError::NameExists => "Category name already exists",
            CategoryError::CircularReference => "Cannot create circular reference in category hierarchy",
            CategoryError::TooDeep => "Maximum category depth is 3 levels",
            CategoryError::NoSelection => "No category selected",
            CategoryError::HasSubcategories => "Cannot delete category with subcategories. Move or delete subcategories first.",
        }
    }
}

/// The message of an error.
pub open spec fn category_error_text(e: CategoryError) -> Seq<char> {
    match e {
        CategoryError::EmptyName => "Category name cannot be empty"@,
        CategoryError::NameExists => "Category name already exists"@,
        CategoryError::CircularReference => "Cannot create circular reference in category hierarchy"@,
        CategoryError::TooDeep => "Maximum category depth is 3 levels"@,
        CategoryError::NoSelection => "No category selected"@,
        CategoryError::HasSubcategories => "Cannot delete category with subcategories. Move or delete subcategories first."@,
    }
}

// ---------------------------------------------------------------------------
// The table as a map
// ---------------------------------------------------------------------------

/// The keys of the table are the names.
proof fn lemma_table_dom(s: Seq<InfoView>)
    ensures
        table(s).dom() == names(s).to_set(),
        table(s).dom().finite(),
    decreases s.len(),
{
    if s.len() > 0 {
        lemma_table_dom(s.drop_last());
        assert(names(s.drop_last()) =~= names(s).drop_last());
        let ns = names(s);
        let nd = ns.drop_last();
        assert forall|x: Seq<char>| ns.contains(x) <==> (nd.contains(x) || x == s.last().name) by {
            if ns.contains(x) {
                let k = choose|k: int| 0 <= k < ns.len() && ns[k] == x;
                if k < nd.len() {
                    assert(nd[k] == x);
                }
            }
            if nd.contains(x) {
                let k = choose|k: int| 0 <= k < nd.len() && nd[k] == x;
                assert(ns[k] == x);
            }
            if x == s.last().name {
                assert(ns[ns.len() - 1] == x);
            }
        }
        assert(ns.to_set() =~= nd.to_set().insert(s.last().name));
    } else {
        assert(names(s).to_set() =~= Set::empty());
    }
}

/// With unique names, the entry at position `i` is the table's entry for
/// its name.
proof fn lemma_table_at(s: Seq<InfoView>, i: int)
    requires
        names(s).no_duplicates(),
        0 <= i < s.len(),
    ensures
        table(s).contains_key(s[i].name),
        table(s)[s[i].name] == s[i],
    decreases s.len(),
{
    if i < s.len() - 1 {
        let t = s.drop_last();
        assert(names(t) =~= names(s).drop_last());
        assert(names(s)[i] != names(s)[s.len() - 1]);
        lemma_table_at(t, i);
        assert(t[i] == s[i]);
    }
}

/// Replacing the entry at position `i` by one of the same name replaces
/// the table's entry.
proof fn lemma_table_update(s: Seq<InfoView>, i: int, x: InfoView)
    requires
        names(s).no_duplicates(),
        0 <= i < s.len(),
        x.name == s[i].name,
    ensures
        table(s.update(i, x)) == table(s).insert(x.name, x),
        names(s.update(i, x)) == names(s),
    decreases s.len(),
{
    assert(names(s.update(i, x)) =~= names(s));
    if i == s.len() - 1 {
        assert(s.update(i, x).drop_last() =~= s.drop_last());
        lemma_table_at(s, i);
        assert(table(s.drop_last()).insert(x.name, x) =~= table(s).insert(x.name, x));
    } else {
        let t = s.drop_last();
        assert(names(t) =~= names(s).drop_last());
        lemma_table_update(t, i, x);
        assert(s.update(i, x).drop_last() =~= t.update(i, x));
        assert(names(s)[i] != names(s)[s.len() - 1]);
        assert(table(s.update(i, x)) =~= table(s).insert(x.name, x));
    }
}

/// Appending an entry with a new name adds it to the table.
proof fn lemma_table_push(s: Seq<InfoView>, x: InfoView)
    requires
        names(s).no_duplicates(),
        !names(s).contains(x.name),
    ensures
        table(s.push(x)) == table(s).insert(x.name, x),
        names(s.push(x)).no_duplicates(),
        names(s.push(x)) == names(s).push(x.name),
{
    assert(s.push(x).drop_last() =~= s);
    assert(names(s.push(x)) =~= names(s).push(x.name));
}

/// Removing the entry at position `i` removes its name from the table.
proof fn lemma_table_remove(s: Seq<InfoView>, i: int)
    requires
        names(s).no_duplicates(),
        0 <= i < s.len(),
    ensures
        table(s.remove(i)) == table(s).remove(s[i].name),
        names(s.remove(i)) == names(s).remove(i),
        names(s.remove(i)).no_duplicates(),
    decreases s.len(),
{
    assert(names(s.remove(i)) =~= names(s).remove(i));
    lemma_table_dom(s);
    if i == s.len() - 1 {
        assert(s.remove(i) =~= s.drop_last());
        lemma_table_dom(s.drop_last());
        assert(names(s.drop_last()) =~= names(s).drop_last());
        assert(!names(s.drop_last()).contains(s[i].name)) by {
            if names(s.drop_last()).contains(s[i].name) {
                let k = choose|k: int|
                    0 <= k < names(s.drop_last()).len() && names(s.drop_last())[k] == s[i].name;
                assert(names(s)[k] == names(s)[i]);
            }
        }
        assert(table(s.drop_last()) =~= table(s).remove(s[i].name));
    } else {
        let t = s.drop_last();
        assert(names(t) =~= names(s).drop_last());
        lemma_table_remove(t, i);
        assert(s.remove(i).drop_last() =~= t.remove(i));
        assert(s.remove(i).last() == s.last());
        assert(names(s)[i] != names(s)[s.len() - 1]);
        assert(table(s.remove(i)) =~= table(s).remove(s[i].name));
    }
    assert forall|a: int, b: int|
        0 <= a < names(s.remove(i)).len() && 0 <= b < names(s.remove(i)).len() && a != b
        implies names(s.remove(i))[a] != names(s.remove(i))[b] by {
        let aa = if a < i {
            a
        } else {
            a + 1
        };
        let bb = if b < i {
            b
        } else {
            b + 1
        };
        assert(names(s.remove(i))[a] == names(s)[aa]);
        assert(names(s.remove(i))[b] == names(s)[bb]);
    }
}

/// Changing every entry without changing names changes the table the
/// same way.
proof fn lemma_table_map(s: Seq<InfoView>, f: spec_fn(InfoView) -> InfoView)
    requires
        forall|x: InfoView| #[trigger] f(x).name == x.name,
    ensures
        table(s.map_values(f)) == table(s).map_values(f),
        names(s.map_values(f)) == names(s),
    decreases s.len(),
{
    assert(names(s.map_values(f)) =~= names(s));
    if s.len() > 0 {
        lemma_table_map(s.drop_last(), f);
        assert(s.map_values(f).drop_last() =~= s.drop_last().map_values(f));
        lemma_table_dom(s);
        lemma_table_dom(s.drop_last());
        assert(table(s.map_values(f)) =~= table(s).map_values(f));
    } else {
        assert(table(s.map_values(f)) =~= table(s).map_values(f));
    }
}

} // verus!

verus! {

// ---------------------------------------------------------------------------
// Ancestry
// ---------------------------------------------------------------------------

/// The `i`-th category up the parent chain from `start`, while the chain
/// stays inside the table (`start` itself when `i` is 0).
pub open spec fn ancestor(m: Map<Seq<char>, InfoView>, start: Seq<char>, i: nat) -> Option<
    Seq<char>,
>
    decreases i,
{
    if i == 0 {
        if m.contains_key(start) {
            Some(start)
        } else {
            None
        }
    } else {
        match ancestor(m, start, (i - 1) as nat) {
            Some(c) => match m[c].parent {
                Some(p) => if m.contains_key(p) {
                    Some(p)
                } else {
                    None
                },
                None => None,
            },
            None => None,
        }
    }
}

/// Whether making `start` the parent of `category` would close a cycle:
/// walking up from `start` reaches `category`, or reaches a category seen
/// before on the walk.
pub open spec fn creates_cycle(m: Map<Seq<char>, InfoView>, category: Seq<char>, start: Seq<
    char,
>) -> bool {
    exists|i: nat|
        match #[trigger] ancestor(m, start, i) {
            Some(x) => x == category || exists|j: nat| j < i && ancestor(m, start, j) == Some(x),
            None => false,
        }
}

/// Once the walk leaves the table it stays out.
proof fn lemma_ancestor_none(m: Map<Seq<char>, InfoView>, start: Seq<char>, i: nat, k: nat)
    requires
        ancestor(m, start, i) is None,
        i <= k,
    ensures
        ancestor(m, start, k) is None,
    decreases k - i,
{
    if i < k {
        lemma_ancestor_none(m, start, i, (k - 1) as nat);
    }
}

/// A sequence without duplicates inside a finite set is no longer than the
/// set is large.
proof fn lemma_distinct_within(v: Seq<Seq<char>>, s: Set<Seq<char>>)
    requires
        v.no_duplicates(),
        s.finite(),
        forall|k: int| 0 <= k < v.len() ==> s.contains(#[trigger] v[k]),
    ensures
        v.len() <= s.len(),
{
    v.unique_seq_to_set();
    assert(v.to_set().subset_of(s));
    vstd::set_lib::lemma_len_subset(v.to_set(), s);
}

// ---------------------------------------------------------------------------
// The manager
// ---------------------------------------------------------------------------

/// What the category editor shows: the name and description fields, the
/// position of the chosen parent (`None`: the choice is left as it is),
/// and whether the edit, delete and move buttons are on.
#[derive(Clone, Debug)]
pub struct EditArea {
    pub name: String,
    pub description: String,
    pub parent_choice: Option<usize>,
    pub buttons_active: bool,
}

/// The category table with the category selected for editing.
pub struct CategoryManager {
    categories: Vec<CategoryInfo>,
    selected_category: Option<String>,
}

impl CategoryManager {
    /// The categories by name.
    pub closed spec fn categories(&self) -> Map<Seq<char>, InfoView> {
        table(info_views(self.categories@))
    }

    /// The category selected for editing.
    pub closed spec fn selected(&self) -> Option<Seq<char>> {
        opt_view(self.selected_category)
    }

    /// Names are unique and every category is at most three levels deep.
    pub closed spec fn wf(&self) -> bool {
        &&& names(info_views(self.categories@)).no_duplicates()
        &&& forall|i: int|
            0 <= i < self.categories@.len() ==> #[trigger] self.categories@[i].level <= 3
    }

    /// Every category in the table is at most three levels deep.
    pub proof fn lemma_levels(&self)
        requires
            self.wf(),
        ensures
            forall|k: Seq<char>| #[trigger]
                self.categories().contains_key(k) ==> self.categories()[k].level <= 3,
            self.categories().dom().finite(),
    {
        let s = info_views(self.categories@);
        lemma_table_dom(s);
        assert forall|k: Seq<char>| #[trigger]
            self.categories().contains_key(k) implies self.categories()[k].level <= 3 by {
            let i = choose|i: int| 0 <= i < names(s).len() && names(s)[i] == k;
            lemma_table_at(s, i);
            assert(self.categories@[i].level <= 3);
        }
    }

    /// An empty table with nothing selected.
    pub fn new() -> (r: Self)
        ensures
            r.wf(),
            r.categories() == Map::<Seq<char>, InfoView>::empty(),
            r.selected() is None,
    {
        let r = CategoryManager { categories: Vec::new(), selected_category: None };
        assert(info_views(r.categories@) =~= Seq::<InfoView>::empty());
        r
    }

    /// Selects a category for editing (or clears the selection).
    pub fn select_category(&mut self, name: Option<&str>)
        requires
            old(self).wf(),
        ensures
            final(self).wf(),
            final(self).categories() == old(self).categories(),
            final(self).selected() == match name {
                Some(n) => Some(n@),
                None => None,
            },
    {
        self.selected_category = match name {
            Some(n) => {
                let mut s = String::new();
                crate::text::push_str(&mut s, n);
                Some(s)
            },
            None => None,
        };
    }

    /// The position of the category called `name`, if any.
    fn find_index(&self, name: &Vec<char>) -> (r: Option<usize>)
        requires
            self.wf(),
        ensures
            match r {
                Some(i) => i < self.categories@.len() && self.categories@[i as int].name@ == name@,
                None => !self.categories().contains_key(name@),
            },
    {
        let mut i: usize = 0;
        while i < self.categories.len()
            invariant
                i <= self.categories.len(),
                forall|k: int| 0 <= k < i ==> self.categories@[k].name@ != name@,
            decreases self.categories.len() - i,
        {
            let n = chars_of(self.categories[i].name.as_str());
            if crate::text::starts_with_chars(&n, name) && n.len() == name.len() {
                assert(n@.take(name@.len() as int) =~= n@);
                return Some(i);
            }
            assert(n@ != name@) by {
                if n@ == name@ {
                    assert(n@.take(name@.len() as int) =~= n@);
                }
            }
            i += 1;
        }
        proof {
            let s = info_views(self.categories@);
            lemma_table_dom(s);
            if names(s).contains(name@) {
                let k = choose|k: int| 0 <= k < names(s).len() && names(s)[k] == name@;
                assert(self.categories@[k].name@ == name@);
            }
        }
        None
    }

    /// Whether making `potential_parent` the parent of `category` would
    /// close a cycle in the hierarchy.
    pub fn would_create_cycle(&self, category: &str, potential_parent: &str) -> (r: bool)
        requires
            self.wf(),
        ensures
            r == creates_cycle(self.categories(), category@, potential_parent@),
    {
        let ghost m = self.categories();
        let ghost s = info_views(self.categories@);
        let ghost start = potential_parent@;
        proof {
            lemma_table_dom(s);
            names(s).lemma_cardinality_of_set();
        }
        let cat = chars_of(category);
        let mut current = chars_of(potential_parent);
        let mut visited: Vec<Vec<char>> = Vec::new();
        let n = self.categories.len();
        loop
            invariant
                self.wf(),
                m == self.categories(),
                s == info_views(self.categories@),
                m.dom() == names(s).to_set(),
                m.dom().finite(),
                m.dom().len() <= n,
                n == self.categories@.len(),
                cat@ == category@,
                start == potential_parent@,
                forall|k: int|
                    0 <= k < visited@.len() ==> ancestor(m, start, k as nat) == Some(
                        #[trigger] visited@[k]@,
                    ),
                crate::text::char_views(visited@).no_duplicates(),
                forall|k: int| 0 <= k < visited@.len() ==> #[trigger] visited@[k]@ != cat@,
                ancestor(m, start, visited@.len() as nat) == (if m.contains_key(current@) {
                    Some(current@)
                } else {
                    None
                }),
            decreases n - visited@.len(),
        {
            let ghost i = visited@.len();
            let ghost vv = crate::text::char_views(visited@);
            proof {
                assert forall|k: int| 0 <= k < vv.len() implies m.dom().contains(#[trigger] vv[k]) by {
                    assert(vv[k] == visited@[k]@);
                    assert(ancestor(m, start, k as nat) == Some(visited@[k]@));
                    if !m.contains_key(visited@[k]@) {
                        if k == 0 {
                        } else {
                            assert(ancestor(m, start, k as nat) is None || m.contains_key(
                                visited@[k]@,
                            ));
                        }
                    }
                }
            }
            match self.find_index(&current) {
                None => {
                    proof {
                        assert(ancestor(m, start, i) is None);
                        if creates_cycle(m, cat@, start) {
                            let w = choose|w: nat|
                                match #[trigger] ancestor(m, start, w) {
                                    Some(x) => x == cat@ || exists|j: nat|
                                        j < w && ancestor(m, start, j) == Some(x),
                                    None => false,
                                };
                            if w >= i {
                                lemma_ancestor_none(m, start, i, w);
                            } else {
                                let x = visited@[w as int]@;
                                assert(ancestor(m, start, w) == Some(x));
                                if x != cat@ {
                                    let j = choose|j: nat|
                                        j < w && ancestor(m, start, j) == Some(x);
                                    assert(ancestor(m, start, j) == Some(visited@[j as int]@));
                                    assert(vv[j as int] == vv[w as int]);
                                }
                            }
                        }
                    }
                    return false;
                },
                Some(idx) => {
                    proof {
                        lemma_table_at(s, idx as int);
                    }
                    let seen = has_chars(&visited, &current);
                    if seen || (current.len() == cat.len() && crate::text::starts_with_chars(
                        &current,
                        &cat,
                    )) {
                        proof {
                            assert(ancestor(m, start, i) == Some(current@));
                            if seen {
                                let j = choose|j: int| 0 <= j < vv.len() && vv[j] == current@;
                                assert(ancestor(m, start, j as nat) == Some(visited@[j]@));
                            } else {
                                assert(current@.take(cat@.len() as int) =~= current@);
                            }
                            assert(match ancestor(m, start, i) {
                                Some(x) => x == cat@ || exists|j: nat|
                                    j < i && ancestor(m, start, j) == Some(x),
                                None => false,
                            });
                        }
                        return true;
                    }
                    proof {
                        if current@ == cat@ {
                            assert(current@.take(cat@.len() as int) =~= current@);
                        }
                        lemma_distinct_within(vv.push(current@), m.dom());
                        assert(vv.push(current@).no_duplicates());
                    }
                    let next = match &self.categories[idx].parent {
                        Some(p) => Some(chars_of(p.as_str())),
                        None => None,
                    };
                    let cur_copy = copy_char_vec(&current);
                    visited.push(cur_copy);
                    assert(crate::text::char_views(visited@) =~= vv.push(current@));
                    match next {
                        Some(p) => {
                            current = p;
                        },
                        None => {
                            proof {
                                assert(ancestor(m, start, (i + 1) as nat) is None);
                                if creates_cycle(m, cat@, start) {
                                    let w = choose|w: nat|
                                        match #[trigger] ancestor(m, start, w) {
                                            Some(x) => x == cat@ || exists|j: nat|
                                                j < w && ancestor(m, start, j) == Some(x),
                                            None => false,
                                        };
                                    if w >= i + 1 {
                                        lemma_ancestor_none(m, start, (i + 1) as nat, w);
                                    } else {
                                        let x = visited@[w as int]@;
                                        if x != cat@ {
                                            let j = choose|j: nat|
                                                j < w && ancestor(m, start, j) == Some(x);
                                            assert(ancestor(m, start, j) == Some(
                                                visited@[j as int]@,
                                            ));
                                            assert(crate::text::char_views(visited@)[j as int]
                                                == crate::text::char_views(visited@)[w as int]);
                                        }
                                    }
                                }
                            }
                            return false;
                        },
                    }
                },
            }
        }
    }
}

/// A copy of a character vector.
fn copy_char_vec(v: &Vec<char>) -> (r: Vec<char>)
    ensures
        r@ == v@,
{
    let mut r: Vec<char> = Vec::new();
    let mut i: usize = 0;
    while i < v.len()
        invariant
            i <= v.len(),
            r@ == v@.take(i as int),
        decreases v.len() - i,
    {
        r.push(v[i]);
        assert(v@.take(i + 1) =~= v@.take(i as int).push(v@[i as int]));
        i += 1;
    }
    assert(v@.take(v.len() as int) =~= v@);
    r
}

/// Whether `k` is among `ks`.
fn has_chars(ks: &Vec<Vec<char>>, k: &Vec<char>) -> (r: bool)
    ensures
        r == crate::text::char_views(ks@).contains(k@),
{
    let mut i: usize = 0;
    while i < ks.len()
        invariant
            i <= ks.len(),
            forall|j: int| 0 <= j < i ==> ks@[j]@ != k@,
        decreases ks.len() - i,
    {
        let same = ks[i].len() == k.len() && crate::text::starts_with_chars(&ks[i], k);
        if same {
            assert(ks@[i as int]@.take(k@.len() as int) =~= ks@[i as int]@);
            assert(crate::text::char_views(ks@)[i as int] == k@);
            return true;
        }
        assert(ks@[i as int]@ != k@) by {
            if ks@[i as int]@ == k@ {
                assert(ks@[i as int]@.take(k@.len() as int) =~= ks@[i as int]@);
            }
        }
        i += 1;
    }
    assert forall|j: int| 0 <= j < ks@.len() implies crate::text::char_views(ks@)[j] != k@ by {
        assert(crate::text::char_views(ks@)[j] == ks@[j]@);
    }
    false
}

} // verus!

verus! {

// ---------------------------------------------------------------------------
// Editing rules
// ---------------------------------------------------------------------------

/// A trimmed description, or none when it is blank.
pub open spec fn trimmed_description(d: Seq<char>) -> Option<Seq<char>> {
    if trim(d).len() == 0 {
        None
    } else {
        Some(trim(d))
    }
}

/// The check of a category name (and chosen parent) entered in the editor:
/// the trimmed name must not be empty, must not name another existing
/// category (renaming the selected category to its own name is allowed),
/// and the parent must not lead back to it.
pub open spec fn validation(
    m: Map<Seq<char>, InfoView>,
    selected: Option<Seq<char>>,
    input: Seq<char>,
    parent: Option<Seq<char>>,
) -> Result<(), CategoryError> {
    let name = trim(input);
    if name.len() == 0 {
        Err(CategoryError::EmptyName)
    } else if match selected {
        Some(sel) => name != sel && m.contains_key(name),
        None => m.contains_key(name),
    } {
        Err(CategoryError::NameExists)
    } else if match parent {
        Some(p) => creates_cycle(m, name, p),
        None => false,
    } {
        Err(CategoryError::CircularReference)
    } else {
        Ok(())
    }
}

/// The depth of a category placed under `parent`: 1 at the root, one more
/// than the parent's, and 2 below a parent that is not in the table.
pub open spec fn new_level(m: Map<Seq<char>, InfoView>, parent: Option<Seq<char>>) -> nat {
    match parent {
        None => 1,
        Some(p) => if m.contains_key(p) {
            m[p].level + 1
        } else {
            2
        },
    }
}

/// `c` appended to the subcategories of `p`, when `p` is in the table.
pub open spec fn with_child(m: Map<Seq<char>, InfoView>, p: Seq<char>, c: Seq<char>) -> Map<
    Seq<char>,
    InfoView,
> {
    if m.contains_key(p) {
        m.insert(p, InfoView { children: m[p].children.push(c), ..m[p] })
    } else {
        m
    }
}

/// `s` without any occurrence of `c`.
pub open spec fn remove_all(s: Seq<Seq<char>>, c: Seq<char>) -> Seq<Seq<char>>
    decreases s.len(),
{
    if s.len() == 0 {
        s
    } else {
        let r = remove_all(s.drop_last(), c);
        if s.last() == c {
            r
        } else {
            r.push(s.last())
        }
    }
}

/// `c` removed from the subcategories of `p`, when `p` is in the table.
pub open spec fn without_child(m: Map<Seq<char>, InfoView>, p: Seq<char>, c: Seq<char>) -> Map<
    Seq<char>,
    InfoView,
> {
    if m.contains_key(p) {
        m.insert(p, InfoView { children: remove_all(m[p].children, c), ..m[p] })
    } else {
        m
    }
}

/// A category with references to `old` (as parent or subcategory) turned
/// into references to `new`.
pub open spec fn rename_refs(i: InfoView, old: Seq<char>, new: Seq<char>) -> InfoView {
    InfoView {
        parent: if i.parent == Some(old) {
            Some(new)
        } else {
            i.parent
        },
        children: i.children.map_values(
            |x: Seq<char>|
                if x == old {
                    new
                } else {
                    x
                },
        ),
        ..i
    }
}

/// Adding a category from the editor's fields: the outcome and the table
/// afterwards.
pub open spec fn add_outcome(
    m: Map<Seq<char>, InfoView>,
    selected: Option<Seq<char>>,
    name_input: Seq<char>,
    description_input: Seq<char>,
    parent: Option<Seq<char>>,
) -> (Result<(), CategoryError>, Map<Seq<char>, InfoView>) {
    match validation(m, selected, name_input, parent) {
        Err(e) => (Err(e), m),
        Ok(_) => {
            let name = trim(name_input);
            let level = new_level(m, parent);
            if level > 3 {
                (Err(CategoryError::TooDeep), m)
            } else {
                let m1 = m.insert(
                    name,
                    InfoView {
                        name,
                        parent,
                        children: Seq::empty(),
                        description: trimmed_description(description_input),
                        file_count: 0,
                        level,
                    },
                );
                (
                    Ok(()),
                    match parent {
                        Some(p) => with_child(m1, p, name),
                        None => m1,
                    },
                )
            }
        },
    }
}

/// Renaming or moving the selected category from the editor's fields: the
/// outcome, the table and the selection afterwards. When the new place
/// would be too deep the category has already been taken out of the table
/// and out of its old parent's subcategories, and stays out.
pub open spec fn update_outcome(
    m: Map<Seq<char>, InfoView>,
    selected: Option<Seq<char>>,
    name_input: Seq<char>,
    description_input: Seq<char>,
    parent: Option<Seq<char>>,
) -> (Result<(), CategoryError>, Map<Seq<char>, InfoView>, Option<Seq<char>>) {
    match selected {
        None => (Err(CategoryError::NoSelection), m, selected),
        Some(sel) => match validation(m, selected, name_input, parent) {
            Err(e) => (Err(e), m, selected),
            Ok(_) => if !m.contains_key(sel) {
                (Ok(()), m, selected)
            } else {
                let info = m[sel];
                let new_name = trim(name_input);
                let m1 = m.remove(sel);
                let m2 = match info.parent {
                    Some(op) => without_child(m1, op, sel),
                    None => m1,
                };
                let level = new_level(m2, parent);
                if level > 3 {
                    (Err(CategoryError::TooDeep), m2, selected)
                } else {
                    let info2 = InfoView {
                        name: new_name,
                        parent,
                        description: trimmed_description(description_input),
                        level,
                        ..info
                    };
                    let m3 = m2.insert(new_name, info2);
                    let m4 = match parent {
                        Some(p) => with_child(m3, p, new_name),
                        None => m3,
                    };
                    let m5 = if new_name != sel {
                        m4.map_values(|i: InfoView| rename_refs(i, sel, new_name))
                    } else {
                        m4
                    };
                    (Ok(()), m5, Some(new_name))
                }
            },
        },
    }
}

/// Deleting the selected category: refused while it has subcategories;
/// when it holds files and the user did not confirm, nothing happens;
/// otherwise it leaves the table and its parent's subcategories and the
/// selection is cleared.
pub open spec fn delete_outcome(
    m: Map<Seq<char>, InfoView>,
    selected: Option<Seq<char>>,
    confirmed: bool,
) -> (Result<(), CategoryError>, Map<Seq<char>, InfoView>, Option<Seq<char>>) {
    match selected {
        None => (Err(CategoryError::NoSelection), m, selected),
        Some(sel) => if m.contains_key(sel) && m[sel].children.len() > 0 {
            (Err(CategoryError::HasSubcategories), m, selected)
        } else if m.contains_key(sel) && m[sel].file_count > 0 && !confirmed {
            (Ok(()), m, selected)
        } else {
            let m1 = if m.contains_key(sel) {
                match m[sel].parent {
                    Some(p) => without_child(m.remove(sel), p, sel),
                    None => m.remove(sel),
                }
            } else {
                m
            };
            (Ok(()), m1, None)
        },
    }
}

} // verus!

verus! {

// ---------------------------------------------------------------------------
// Table edits
// ---------------------------------------------------------------------------

/// The view of an optional string slice.
pub open spec fn opt_str(o: Option<&str>) -> Option<Seq<char>> {
    match o {
        Some(s) => Some(s@),
        None => None,
    }
}

/// A copy of a category.
fn copy_info(c: &CategoryInfo) -> (r: CategoryInfo)
    ensures
        r@ == c@,
{
    CategoryInfo {
        name: c.name.clone(),
        parent: crate::library::copy_opt(&c.parent),
        children: crate::library::copy_strings(&c.children),
        description: crate::library::copy_opt(&c.description),
        file_count: c.file_count,
        level: c.level,
    }
}

/// `v` without any string equal to `c`, the others in order.
fn without_all(v: &Vec<String>, c: &String) -> (r: Vec<String>)
    ensures
        views(r@) == remove_all(views(v@), c@),
{
    let mut r: Vec<String> = Vec::new();
    let mut i: usize = 0;
    while i < v.len()
        invariant
            i <= v.len(),
            views(r@) == remove_all(views(v@).take(i as int), c@),
        decreases v.len() - i,
    {
        assert(views(v@).take(i + 1).drop_last() =~= views(v@).take(i as int));
        if v[i] != *c {
            r.push(v[i].clone());
            assert(views(r@) =~= views(r@).drop_last().push(v@[i as int]@));
        }
        i += 1;
    }
    assert(views(v@).take(v.len() as int) =~= views(v@));
    r
}

/// A category with references to `old_name` turned into `new_name`.
fn renamed(c: &CategoryInfo, old_name: &String, new_name: &String) -> (r: CategoryInfo)
    ensures
        r@ == rename_refs(c@, old_name@, new_name@),
{
    let parent = match &c.parent {
        Some(p) => if *p == *old_name {
            Some(new_name.clone())
        } else {
            Some(p.clone())
        },
        None => None,
    };
    let mut children: Vec<String> = Vec::new();
    let mut i: usize = 0;
    while i < c.children.len()
        invariant
            i <= c.children.len(),
            children@.len() == i,
            forall|k: int|
                0 <= k < i ==> #[trigger] children@[k]@ == (if c.children@[k]@ == old_name@ {
                    new_name@
                } else {
                    c.children@[k]@
                }),
        decreases c.children.len() - i,
    {
        if c.children[i] == *old_name {
            children.push(new_name.clone());
        } else {
            children.push(c.children[i].clone());
        }
        i += 1;
    }
    let r = CategoryInfo {
        name: c.name.clone(),
        parent,
        children,
        description: crate::library::copy_opt(&c.description),
        file_count: c.file_count,
        level: c.level,
    };
    assert(r@.children =~= rename_refs(c@, old_name@, new_name@).children);
    r
}

impl CategoryManager {
    /// Replaces the category at position `i` by one of the same name.
    fn replace_at(&mut self, i: usize, info: CategoryInfo)
        requires
            old(self).wf(),
            i < old(self).categories@.len(),
            info@.name == old(self).categories@[i as int]@.name,
            info.level <= 3,
        ensures
            final(self).wf(),
            final(self).categories() == old(self).categories().insert(info@.name, info@),
            final(self).selected() == old(self).selected(),
    {
        let ghost s = info_views(self.categories@);
        proof {
            lemma_table_update(s, i as int, info@);
        }
        self.categories.set(i, info);
        assert(info_views(self.categories@) =~= s.update(i as int, info@));
    }

    /// Puts `info` into the table, replacing the category of the same name.
    fn put(&mut self, info: CategoryInfo)
        requires
            old(self).wf(),
            info.level <= 3,
        ensures
            final(self).wf(),
            final(self).categories() == old(self).categories().insert(info@.name, info@),
            final(self).selected() == old(self).selected(),
    {
        let key = chars_of(info.name.as_str());
        match self.find_index(&key) {
            Some(i) => {
                self.replace_at(i, info);
            },
            None => {
                let ghost s = info_views(self.categories@);
                proof {
                    lemma_table_dom(s);
                    lemma_table_push(s, info@);
                }
                self.categories.push(info);
                assert(info_views(self.categories@) =~= s.push(info@));
            },
        }
    }

    /// Appends `child` to the subcategories of `parent`, if it is in the
    /// table.
    fn push_child(&mut self, parent: &str, child: &String)
        requires
            old(self).wf(),
        ensures
            final(self).wf(),
            final(self).categories() == with_child(old(self).categories(), parent@, child@),
            final(self).selected() == old(self).selected(),
    {
        let key = chars_of(parent);
        match self.find_index(&key) {
            Some(i) => {
                proof {
                    lemma_table_at(info_views(self.categories@), i as int);
                }
                let mut info = copy_info(&self.categories[i]);
                info.children.push(child.clone());
                assert(views(info.children@) =~= views(self.categories@[i as int].children@).push(
                    child@,
                ));
                self.replace_at(i, info);
                assert(final(self).categories() =~= with_child(
                    old(self).categories(),
                    parent@,
                    child@,
                ));
            },
            None => {},
        }
    }

    /// Removes `child` from the subcategories of `parent`, if it is in the
    /// table.
    fn drop_child(&mut self, parent: &String, child: &String)
        requires
            old(self).wf(),
        ensures
            final(self).wf(),
            final(self).categories() == without_child(old(self).categories(), parent@, child@),
            final(self).selected() == old(self).selected(),
    {
        let key = chars_of(parent.as_str());
        match self.find_index(&key) {
            Some(i) => {
                proof {
                    lemma_table_at(info_views(self.categories@), i as int);
                }
                let mut info = copy_info(&self.categories[i]);
                info.children = without_all(&self.categories[i].children, child);
                self.replace_at(i, info);
                assert(final(self).categories() =~= without_child(
                    old(self).categories(),
                    parent@,
                    child@,
                ));
            },
            None => {},
        }
    }

    /// Takes the category called `name` out of the table.
    fn take_out(&mut self, name: &String) -> (r: Option<CategoryInfo>)
        requires
            old(self).wf(),
        ensures
            final(self).wf(),
            final(self).selected() == old(self).selected(),
            match r {
                Some(info) => {
                    &&& old(self).categories().contains_key(name@)
                    &&& info@ == old(self).categories()[name@]
                    &&& info.level <= 3
                    &&& final(self).categories() == old(self).categories().remove(name@)
                },
                None => {
                    &&& !old(self).categories().contains_key(name@)
                    &&& final(self).categories() == old(self).categories()
                },
            },
    {
        let key = chars_of(name.as_str());
        match self.find_index(&key) {
            Some(i) => {
                let ghost s = info_views(self.categories@);
                proof {
                    lemma_table_at(s, i as int);
                    lemma_table_remove(s, i as int);
                }
                let info = self.categories.remove(i);
                assert(info_views(self.categories@) =~= s.remove(i as int));
                assert forall|j: int| 0 <= j < self.categories@.len() implies #[trigger]
                    self.categories@[j].level <= 3 by {
                    if j < i {
                        assert(self.categories@[j] == old(self).categories@[j]);
                    } else {
                        assert(self.categories@[j] == old(self).categories@[j + 1]);
                    }
                }
                Some(info)
            },
            None => None,
        }
    }

    /// Turns every reference to `old_name` (as parent or subcategory) into
    /// a reference to `new_name`.
    pub fn update_category_references(&mut self, old_name: &String, new_name: &String)
        requires
            old(self).wf(),
        ensures
            final(self).wf(),
            final(self).categories() == old(self).categories().map_values(
                |i: InfoView| rename_refs(i, old_name@, new_name@),
            ),
            final(self).selected() == old(self).selected(),
    {
        let ghost s = info_views(self.categories@);
        let ghost f = |i: InfoView| rename_refs(i, old_name@, new_name@);
        let mut out: Vec<CategoryInfo> = Vec::new();
        let mut i: usize = 0;
        while i < self.categories.len()
            invariant
                i <= self.categories.len(),
                s == info_views(self.categories@),
                out@.len() == i,
                forall|k: int| 0 <= k < i ==> #[trigger] out@[k]@ == rename_refs(s[k], old_name@, new_name@),
                forall|k: int| 0 <= k < i ==> #[trigger] out@[k].level == self.categories@[k].level,
            decreases self.categories.len() - i,
        {
            let c = renamed(&self.categories[i], old_name, new_name);
            assert(s[i as int] == self.categories@[i as int]@);
            out.push(c);
            i += 1;
        }
        proof {
            assert(info_views(out@) =~= s.map_values(f));
            lemma_table_map(s, f);
        }
        self.categories = out;
        assert(final(self).categories() =~= old(self).categories().map_values(
            |i: InfoView| rename_refs(i, old_name@, new_name@),
        ));
    }

    /// The depth a category placed under `parent` gets.
    fn level_under(&self, parent: Option<&str>) -> (r: usize)
        requires
            self.wf(),
        ensures
            r == new_level(self.categories(), opt_str(parent)),
            r <= 4,
    {
        match parent {
            None => 1,
            Some(p) => {
                let key = chars_of(p);
                match self.find_index(&key) {
                    Some(i) => {
                        proof {
                            lemma_table_at(info_views(self.categories@), i as int);
                        }
                        self.categories[i].level + 1
                    },
                    None => 2,
                }
            },
        }
    }

    /// Checks a category name (and chosen parent) entered in the editor.
    pub fn validate_category_input(&self, name_input: &str, parent: Option<&str>) -> (r: Result<
        (),
        CategoryError,
    >)
        requires
            self.wf(),
        ensures
            r == validation(self.categories(), self.selected(), name_input@, opt_str(parent)),
    {
        let name = trim_str(name_input);
        if name.as_str().is_empty() {
            return Err(CategoryError::EmptyName);
        }
        let key = chars_of(name.as_str());
        let found = self.find_index(&key);
        proof {
            match found {
                Some(i) => lemma_table_at(info_views(self.categories@), i as int),
                None => {},
            }
        }
        let exists = found.is_some();
        let taken = match &self.selected_category {
            Some(sel) => name != *sel && exists,
            None => exists,
        };
        if taken {
            return Err(CategoryError::NameExists);
        }
        match parent {
            Some(p) => {
                if self.would_create_cycle(name.as_str(), p) {
                    return Err(CategoryError::CircularReference);
                }
            },
            None => {},
        }
        Ok(())
    }

    /// Adds a category from the editor's fields: the trimmed name, the
    /// trimmed description (none when blank) and the chosen parent.
    pub fn add_category(&mut self, name_input: &str, description_input: &str, parent: Option<&str>) -> (r:
        Result<(), CategoryError>)
        requires
            old(self).wf(),
        ensures
            final(self).wf(),
            (r, final(self).categories()) == add_outcome(
                old(self).categories(),
                old(self).selected(),
                name_input@,
                description_input@,
                opt_str(parent),
            ),
            final(self).selected() == old(self).selected(),
    {
        match self.validate_category_input(name_input, parent) {
            Err(e) => {
                return Err(e);
            },
            Ok(()) => {},
        }
        let name = trim_str(name_input);
        let desc = trim_str(description_input);
        let description = if desc.as_str().is_empty() {
            None
        } else {
            Some(desc)
        };
        let level = self.level_under(parent);
        if level > 3 {
            return Err(CategoryError::TooDeep);
        }
        let parent_name = match parent {
            Some(p) => Some(p.to_owned()),
            None => None,
        };
        let info = CategoryInfo {
            name: name.clone(),
            parent: parent_name,
            children: Vec::new(),
            description,
            file_count: 0,
            level,
        };
        assert(views(info.children@) =~= Seq::<Seq<char>>::empty());
        self.put(info);
        match parent {
            Some(p) => self.push_child(p, &name),
            None => {},
        }
        Ok(())
    }

    /// Renames or moves the selected category from the editor's fields.
    pub fn update_category(
        &mut self,
        name_input: &str,
        description_input: &str,
        parent: Option<&str>,
    ) -> (r: Result<(), CategoryError>)
        requires
            old(self).wf(),
        ensures
            final(self).wf(),
            (r, final(self).categories(), final(self).selected()) == update_outcome(
                old(self).categories(),
                old(self).selected(),
                name_input@,
                description_input@,
                opt_str(parent),
            ),
    {
        let selected = match &self.selected_category {
            Some(s) => s.clone(),
            None => {
                return Err(CategoryError::NoSelection);
            },
        };
        match self.validate_category_input(name_input, parent) {
            Err(e) => {
                return Err(e);
            },
            Ok(()) => {},
        }
        let new_name = trim_str(name_input);
        let desc = trim_str(description_input);
        let description = if desc.as_str().is_empty() {
            None
        } else {
            Some(desc)
        };
        match self.take_out(&selected) {
            None => Ok(()),
            Some(mut info) => {
                match &info.parent {
                    Some(op) => self.drop_child(op, &selected),
                    None => {},
                }
                let level = self.level_under(parent);
                if level > 3 {
                    return Err(CategoryError::TooDeep);
                }
                info.name = new_name.clone();
                info.description = description;
                info.parent = match parent {
                    Some(p) => Some(p.to_owned()),
                    None => None,
                };
                info.level = level;
                self.put(info);
                match parent {
                    Some(p) => self.push_child(p, &new_name),
                    None => {},
                }
                if new_name != selected {
                    self.update_category_references(&selected, &new_name);
                }
                self.selected_category = Some(new_name);
                Ok(())
            },
        }
    }

    /// The question to ask before deleting the selected category: present
    /// when it is in the table, has no subcategories and holds files.
    pub fn delete_prompt(&self) -> (r: Option<String>)
        requires
            self.wf(),
        ensures
            r is Some <==> (match self.selected() {
                Some(sel) => self.categories().contains_key(sel)
                    && self.categories()[sel].children.len() == 0
                    && self.categories()[sel].file_count > 0,
                None => false,
            }),
            match r {
                Some(msg) => msg@ == delete_prompt_text(
                    self.selected()->0,
                    self.categories()[self.selected()->0].file_count,
                ),
                None => true,
            },
    {
        match &self.selected_category {
            None => None,
            Some(sel) => {
                let key = chars_of(sel.as_str());
                match self.find_index(&key) {
                    None => None,
                    Some(i) => {
                        proof {
                            lemma_table_at(info_views(self.categories@), i as int);
                        }
                        let c = &self.categories[i];
                        if c.children.len() == 0 && c.file_count > 0 {
                            let mut msg = String::new();
                            crate::text::push_str(&mut msg, "Category '");
                            crate::text::push_str(&mut msg, sel.as_str());
                            crate::text::push_str(&mut msg, "' contains ");
                            crate::text::push_decimal(&mut msg, c.file_count as u64);
                            crate::text::push_str(
                                &mut msg,
                                " files. These files will be moved to the parent category or 'Default'. Continue?",
                            );
                            Some(msg)
                        } else {
                            None
                        }
                    },
                }
            },
        }
    }

    /// Deletes the selected category; `confirmed` is the user's answer to
    /// `delete_prompt` (it is not asked when there is no prompt).
    pub fn delete_category(&mut self, confirmed: bool) -> (r: Result<(), CategoryError>)
        requires
            old(self).wf(),
        ensures
            final(self).wf(),
            (r, final(self).categories(), final(self).selected()) == delete_outcome(
                old(self).categories(),
                old(self).selected(),
                confirmed,
            ),
    {
        let selected = match &self.selected_category {
            Some(s) => s.clone(),
            None => {
                return Err(CategoryError::NoSelection);
            },
        };
        let key = chars_of(selected.as_str());
        match self.find_index(&key) {
            Some(i) => {
                proof {
                    lemma_table_at(info_views(self.categories@), i as int);
                }
                if self.categories[i].children.len() > 0 {
                    return Err(CategoryError::HasSubcategories);
                }
                if self.categories[i].file_count > 0 && !confirmed {
                    return Ok(());
                }
            },
            None => {},
        }
        match self.take_out(&selected) {
            Some(info) => match &info.parent {
                Some(p) => self.drop_child(p, &selected),
                None => {},
            },
            None => {},
        }
        self.selected_category = None;
        Ok(())
    }
}

/// The question asked before deleting a category that holds files.
pub open spec fn delete_prompt_text(name: Seq<char>, count: nat) -> Seq<char> {
    "Category '"@ + name + "' contains "@ + crate::text::decimal(count)
        + " files. These files will be moved to the parent category or 'Default'. Continue?"@
}

} // verus!

verus! {

// ---------------------------------------------------------------------------
// Loading the table from the files' category fields
// ---------------------------------------------------------------------------

/// A category seen for the first time: the given parent, no subcategories,
/// no description, no files, depth 1 until the depths are worked out.
pub open spec fn fresh_stat(k: Seq<char>, parent: Option<Seq<char>>) -> InfoView {
    InfoView {
        name: k,
        parent,
        children: Seq::empty(),
        description: None,
        file_count: 0,
        level: 1,
    }
}

/// The entry of `k`, or a fresh one with `parent` when `k` is not in `m`.
pub open spec fn stat_entry(m: Map<Seq<char>, InfoView>, k: Seq<char>, parent: Option<Seq<char>>) -> InfoView {
    if m.contains_key(k) {
        m[k]
    } else {
        fresh_stat(k, parent)
    }
}

/// One more file counted for `k` (created with `parent` when missing).
pub open spec fn bump(m: Map<Seq<char>, InfoView>, k: Seq<char>, parent: Option<Seq<char>>) -> Map<
    Seq<char>,
    InfoView,
> {
    let e = stat_entry(m, k, parent);
    m.insert(k, InfoView { file_count: e.file_count + 1, ..e })
}

/// `c` recorded once among the subcategories of `k` (created with `parent`
/// when missing).
pub open spec fn record_child(
    m: Map<Seq<char>, InfoView>,
    k: Seq<char>,
    parent: Option<Seq<char>>,
    c: Seq<char>,
) -> Map<Seq<char>, InfoView> {
    let e = stat_entry(m, k, parent);
    m.insert(
        k,
        InfoView {
            children: if e.children.contains(c) {
                e.children
            } else {
                e.children.push(c)
            },
            ..e
        },
    )
}

/// The table after counting one more file: its first level always, its
/// second level (a subcategory of the first) when present, and its third
/// level (a subcategory of the second) when both are present.
pub open spec fn count_file(m: Map<Seq<char>, InfoView>, f: StoredFile) -> Map<Seq<char>, InfoView> {
    let c1 = f.category1@;
    let m1 = bump(m, c1, None);
    match f.category2 {
        None => m1,
        Some(s2) => {
            let c2 = s2@;
            let m3 = record_child(bump(m1, c2, Some(c1)), c1, None, c2);
            match f.category3 {
                None => m3,
                Some(s3) => record_child(bump(m3, s3@, Some(c2)), c2, Some(c1), s3@),
            }
        },
    }
}

/// The table after counting every file, in order.
pub open spec fn category_stats(fs: Seq<StoredFile>) -> Map<Seq<char>, InfoView>
    decreases fs.len(),
{
    if fs.len() == 0 {
        Map::empty()
    } else {
        count_file(category_stats(fs.drop_last()), fs.last())
    }
}

/// The depth of a counted category: 1 without a parent, 3 when its parent
/// has a parent, 2 otherwise.
pub open spec fn stat_level(m: Map<Seq<char>, InfoView>, i: InfoView) -> nat {
    match i.parent {
        None => 1,
        Some(p) => if m.contains_key(p) && m[p].parent is Some {
            3
        } else {
            2
        },
    }
}

/// The category table loaded from a list of files.
pub open spec fn loaded_categories(fs: Seq<StoredFile>) -> Map<Seq<char>, InfoView> {
    let m = category_stats(fs);
    m.map_values(|i: InfoView| InfoView { level: stat_level(m, i), ..i })
}

/// Every file count in `m` is at most `b`.
pub open spec fn counts_below(m: Map<Seq<char>, InfoView>, b: int) -> bool {
    forall|k: Seq<char>| #[trigger] m.contains_key(k) ==> m[k].file_count <= b
}

impl CategoryManager {
    /// Counts one more file for `k`.
    fn bump_count(&mut self, k: &String, parent: &Option<String>, Ghost(b): Ghost<int>)
        requires
            old(self).wf(),
            counts_below(old(self).categories(), b),
            0 <= b < usize::MAX,
        ensures
            final(self).wf(),
            final(self).categories() == bump(old(self).categories(), k@, opt_view(*parent)),
            counts_below(final(self).categories(), b + 1),
            final(self).selected() == old(self).selected(),
    {
        let key = chars_of(k.as_str());
        match self.find_index(&key) {
            Some(i) => {
                proof {
                    lemma_table_at(info_views(self.categories@), i as int);
                }
                let mut info = copy_info(&self.categories[i]);
                info.file_count = info.file_count + 1;
                self.replace_at(i, info);
            },
            None => {
                let info = CategoryInfo {
                    name: k.clone(),
                    parent: copy_opt(parent),
                    children: Vec::new(),
                    description: None,
                    file_count: 1,
                    level: 1,
                };
                assert(views(info.children@) =~= Seq::<Seq<char>>::empty());
                self.put(info);
            },
        }
        assert(self.categories() =~= bump(old(self).categories(), k@, opt_view(*parent)));
        assert forall|x: Seq<char>| #[trigger] self.categories().contains_key(x) implies self.categories()[x].file_count <= b + 1 by {
            if x != k@ {
                assert(old(self).categories().contains_key(x));
            } else if old(self).categories().contains_key(x) {
                assert(old(self).categories()[x].file_count <= b);
            }
        }
    }

    /// Records `c` once among the subcategories of `k`.
    fn record_child_of(&mut self, k: &String, parent: &Option<String>, c: &String)
        requires
            old(self).wf(),
        ensures
            final(self).wf(),
            final(self).categories() == record_child(
                old(self).categories(),
                k@,
                opt_view(*parent),
                c@,
            ),
            forall|b: int|
                0 <= b && counts_below(old(self).categories(), b) ==> #[trigger] counts_below(
                    final(self).categories(),
                    b,
                ),
            final(self).selected() == old(self).selected(),
    {
        let key = chars_of(k.as_str());
        match self.find_index(&key) {
            Some(i) => {
                proof {
                    lemma_table_at(info_views(self.categories@), i as int);
                }
                let mut info = copy_info(&self.categories[i]);
                if !crate::text::has_text(&info.children, c) {
                    info.children.push(c.clone());
                    assert(views(info.children@) =~= views(self.categories@[i as int].children@).push(
                        c@,
                    ));
                }
                self.replace_at(i, info);
            },
            None => {
                let mut children: Vec<String> = Vec::new();
                children.push(c.clone());
                let info = CategoryInfo {
                    name: k.clone(),
                    parent: copy_opt(parent),
                    children,
                    description: None,
                    file_count: 0,
                    level: 1,
                };
                assert(views(info.children@) =~= Seq::<Seq<char>>::empty().push(c@));
                self.put(info);
            },
        }
        assert(self.categories() =~= record_child(
            old(self).categories(),
            k@,
            opt_view(*parent),
            c@,
        ));
        assert forall|b: int|
            0 <= b && counts_below(old(self).categories(), b) implies #[trigger] counts_below(
                self.categories(),
                b,
            ) by {
            assert forall|x: Seq<char>| #[trigger] self.categories().contains_key(x) implies self.categories()[x].file_count <= b by {
                if old(self).categories().contains_key(x) {
                    assert(old(self).categories()[x].file_count <= b);
                }
            }
        }
    }

    /// Counts one file.
    fn count_file_into(&mut self, f: &StoredFile, Ghost(b): Ghost<int>)
        requires
            old(self).wf(),
            counts_below(old(self).categories(), b),
            0 <= b,
            b + 3 <= usize::MAX,
        ensures
            final(self).wf(),
            final(self).categories() == count_file(old(self).categories(), *f),
            counts_below(final(self).categories(), b + 3),
            final(self).selected() == old(self).selected(),
    {
        self.bump_count(&f.category1, &None, Ghost(b));
        match &f.category2 {
            None => {},
            Some(c2) => {
                let p1 = Some(f.category1.clone());
                self.bump_count(c2, &p1, Ghost(b + 1));
                self.record_child_of(&f.category1, &None, c2);
                match &f.category3 {
                    None => {},
                    Some(c3) => {
                        let p2 = Some(c2.clone());
                        self.bump_count(c3, &p2, Ghost(b + 2));
                        self.record_child_of(c2, &p1, c3);
                    },
                }
            },
        }
    }

    /// Loads the table from the files' category fields: a category for
    /// every first, second and third level that occurs, with the number of
    /// files counted for it, its parent, its subcategories in the order they
    /// first occur, and its depth. The selection is kept.
    pub fn load_categories(&mut self, entries: &Vec<StoredFile>)
        requires
            old(self).wf(),
            3 * entries@.len() <= usize::MAX,
        ensures
            final(self).wf(),
            final(self).categories() == loaded_categories(entries@),
            final(self).selected() == old(self).selected(),
    {
        let mut st = CategoryManager::new();
        let mut i: usize = 0;
        while i < entries.len()
            invariant
                i <= entries.len(),
                3 * entries@.len() <= usize::MAX,
                st.wf(),
                st.categories() == category_stats(entries@.take(i as int)),
                counts_below(st.categories(), 3 * i),
            decreases entries.len() - i,
        {
            st.count_file_into(&entries[i], Ghost(3 * i as int));
            assert(entries@.take(i + 1).drop_last() =~= entries@.take(i as int));
            i += 1;
        }
        assert(entries@.take(entries.len() as int) =~= entries@);
        let ghost m = st.categories();
        let ghost s = info_views(st.categories@);
        let ghost f = |x: InfoView| InfoView { level: stat_level(m, x), ..x };
        let mut out: Vec<CategoryInfo> = Vec::new();
        let mut j: usize = 0;
        while j < st.categories.len()
            invariant
                j <= st.categories.len(),
                st.wf(),
                m == st.categories(),
                s == info_views(st.categories@),
                out@.len() == j,
                forall|k: int|
                    0 <= k < j ==> #[trigger] out@[k]@ == (InfoView {
                        level: stat_level(m, s[k]),
                        ..s[k]
                    }),
                forall|k: int| 0 <= k < j ==> #[trigger] out@[k].level <= 3,
            decreases st.categories.len() - j,
        {
            let c = &st.categories[j];
            let level: usize = match &c.parent {
                None => 1,
                Some(p) => {
                    let pk = chars_of(p.as_str());
                    match st.find_index(&pk) {
                        Some(q) => {
                            proof {
                                lemma_table_at(s, q as int);
                            }
                            if st.categories[q].parent.is_some() {
                                3
                            } else {
                                2
                            }
                        },
                        None => 2,
                    }
                },
            };
            let mut info = copy_info(c);
            info.level = level;
            assert(s[j as int] == st.categories@[j as int]@);
            out.push(info);
            j += 1;
        }
        proof {
            assert(info_views(out@) =~= s.map_values(f));
            lemma_table_map(s, f);
            assert(names(info_views(out@)) == names(s));
        }
        self.categories = out;
        assert(self.categories() =~= loaded_categories(entries@));
    }
}

} // verus!

verus! {

// ---------------------------------------------------------------------------
// What the editor lists
// ---------------------------------------------------------------------------

/// The names of the categories without a parent.
pub open spec fn root_names(m: Map<Seq<char>, InfoView>) -> Set<Seq<char>> {
    m.dom().filter(|k: Seq<char>| m[k].parent is None)
}

/// The tree label of a category: its name and its file count.
pub open spec fn count_label(name: Seq<char>, count: nat) -> Seq<char> {
    name + " ("@ + crate::text::decimal(count) + ")"@
}

impl CategoryManager {
    /// The names of all categories, in order.
    fn sorted_names(&self, roots_only: bool) -> (r: Vec<String>)
        requires
            self.wf(),
        ensures
            strictly_sorted(views(r@)),
            views(r@).to_set() == if roots_only {
                root_names(self.categories())
            } else {
                self.categories().dom()
            },
    {
        let ghost s = info_views(self.categories@);
        proof {
            lemma_table_dom(s);
        }
        let mut all: Vec<String> = Vec::new();
        let mut i: usize = 0;
        while i < self.categories.len()
            invariant
                i <= self.categories.len(),
                self.wf(),
                s == info_views(self.categories@),
                forall|x: Seq<char>| #[trigger] views(all@).contains(x) <==> exists|k: int|
                    0 <= k < i && #[trigger] self.categories@[k].name@ == x && (!roots_only
                        || self.categories@[k].parent is None),
            decreases self.categories.len() - i,
        {
            let ghost before = views(all@);
            if !roots_only || self.categories[i].parent.is_none() {
                all.push(self.categories[i].name.clone());
                assert(views(all@) =~= before.push(self.categories@[i as int].name@));
            }
            assert forall|x: Seq<char>| #[trigger] views(all@).contains(x) <==> exists|k: int|
                0 <= k < i + 1 && #[trigger] self.categories@[k].name@ == x && (!roots_only
                    || self.categories@[k].parent is None) by {
                if views(all@).contains(x) {
                    let j = choose|j: int| 0 <= j < views(all@).len() && views(all@)[j] == x;
                    if j < before.len() {
                        assert(before[j] == x);
                        assert(before.contains(x));
                    } else {
                        assert(self.categories@[i as int].name@ == x);
                    }
                }
                if exists|k: int|
                    0 <= k < i + 1 && #[trigger] self.categories@[k].name@ == x && (!roots_only
                        || self.categories@[k].parent is None) {
                    let k = choose|k: int|
                        0 <= k < i + 1 && #[trigger] self.categories@[k].name@ == x && (!roots_only
                            || self.categories@[k].parent is None);
                    if k < i {
                        assert(before.contains(x));
                        let j = choose|j: int| 0 <= j < before.len() && before[j] == x;
                        assert(views(all@)[j] == x);
                    } else {
                        assert(views(all@)[views(all@).len() - 1] == x);
                    }
                }
            }
            i += 1;
        }
        let r = sorted_distinct(&all);
        proof {
            let m = self.categories();
            let target = if roots_only {
                root_names(m)
            } else {
                m.dom()
            };
            assert forall|x: Seq<char>| views(all@).contains(x) <==> target.contains(x) by {
                if views(all@).contains(x) {
                    let k = choose|k: int|
                        0 <= k < self.categories@.len() && #[trigger] self.categories@[k].name@ == x
                            && (!roots_only || self.categories@[k].parent is None);
                    lemma_table_at(s, k);
                    assert(names(s)[k] == x);
                }
                if target.contains(x) {
                    assert(names(s).contains(x));
                    let k = choose|k: int| 0 <= k < names(s).len() && names(s)[k] == x;
                    lemma_table_at(s, k);
                    assert(self.categories@[k].name@ == x);
                }
            }
            assert(views(all@).to_set() =~= target);
        }
        r
    }

    /// What the editor shows for the selection, given the parent choices it
    /// offers: with nothing selected, empty fields, the first choice and the
    /// edit buttons off; for a selected category, its name, its description
    /// (or nothing), the first choice that names its parent (the first
    /// choice when it has none; the choice left as it is when no choice
    /// names the parent) and the buttons on; `None` (the editor left as it
    /// is) when the selected name is not a category.
    pub fn edit_area(&self, choices: &Vec<String>) -> (r: Option<EditArea>)
        requires
            self.wf(),
        ensures
            self.selected() is None ==> (r matches Some(a) && a.name@.len() == 0 && a.description@.len() == 0
                && a.parent_choice == Some(0usize) && !a.buttons_active),
            self.selected() is Some && !self.categories().contains_key(self.selected()->0) ==> r is None,
            self.selected() is Some && self.categories().contains_key(self.selected()->0) ==> (r matches Some(a) && {
                let info = self.categories()[self.selected()->0];
                &&& a.name@ == info.name
                &&& a.description@ == match info.description {
                    Some(d) => d,
                    None => Seq::<char>::empty(),
                }
                &&& a.buttons_active
                &&& match info.parent {
                    None => a.parent_choice == Some(0usize),
                    Some(p) => match a.parent_choice {
                        Some(i) => i < choices@.len() && choices@[i as int]@ == p
                            && forall|k: int| 0 <= k < i ==> #[trigger] choices@[k]@ != p,
                        None => !views(choices@).contains(p),
                    },
                }
            }),
    {
        match &self.selected_category {
            None => Some(EditArea {
                name: String::new(),
                description: String::new(),
                parent_choice: Some(0),
                buttons_active: false,
            }),
            Some(sel) => {
                let key = chars_of(sel.as_str());
                match self.find_index(&key) {
                    None => None,
                    Some(j) => {
                        proof {
                            lemma_table_at(info_views(self.categories@), j as int);
                        }
                        let info = &self.categories[j];
                        let description = match &info.description {
                            Some(d) => d.clone(),
                            None => String::new(),
                        };
                        let parent_choice = match &info.parent {
                            None => Some(0),
                            Some(p) => {
                                let mut i: usize = 0;
                                let mut found: Option<usize> = None;
                                while i < choices.len() && found.is_none()
                                    invariant
                                        i <= choices.len(),
                                        forall|k: int| 0 <= k < i ==> #[trigger] choices@[k]@ != p@,
                                        found matches Some(f) ==> f < choices@.len() && choices@[f as int]@ == p@
                                            && forall|k: int| 0 <= k < f ==> #[trigger] choices@[k]@ != p@,
                                    decreases choices.len() - i + (if found is None { 1int } else { 0int }),
                                {
                                    if crate::text::str_eq(choices[i].as_str(), p.as_str()) {
                                        found = Some(i);
                                    } else {
                                        i += 1;
                                    }
                                }
                                proof {
                                    if found is None {
                                        assert forall|k: int| 0 <= k < views(choices@).len() implies views(choices@)[k] != p@ by {
                                            assert(views(choices@)[k] == choices@[k]@);
                                        }
                                    }
                                }
                                found
                            },
                        };
                        Some(EditArea {
                            name: info.name.clone(),
                            description,
                            parent_choice,
                            buttons_active: true,
                        })
                    },
                }
            },
        }
    }

    /// The choices of parent in the editor: "Root Level", then every
    /// category name in order.
    pub fn parent_choices(&self) -> (r: Vec<String>)
        requires
            self.wf(),
        ensures
            r@.len() >= 1,
            r@[0]@ == "Root Level"@,
            strictly_sorted(views(r@).skip(1)),
            views(r@).skip(1).to_set() == self.categories().dom(),
    {
        let names = self.sorted_names(false);
        let mut r: Vec<String> = Vec::new();
        r.push("Root Level".to_owned());
        let mut i: usize = 0;
        while i < names.len()
            invariant
                i <= names.len(),
                r@.len() == i + 1,
                r@[0]@ == "Root Level"@,
                views(r@).skip(1) == views(names@).take(i as int),
            decreases names.len() - i,
        {
            r.push(names[i].clone());
            assert(views(r@).skip(1) =~= views(names@).take(i + 1));
            i += 1;
        }
        assert(views(names@).take(names.len() as int) =~= views(names@));
        r
    }

    /// The labels of the top of the tree: each category without a parent,
    /// in order of name, with its file count.
    pub fn root_labels(&self) -> (r: Vec<String>)
        requires
            self.wf(),
        ensures
            exists|ns: Seq<Seq<char>>|
                strictly_sorted(ns) && ns.to_set() == root_names(self.categories()) && views(r@)
                    == ns.map_values(|n: Seq<char>| count_label(n, self.categories()[n].file_count)),
    {
        let names = self.sorted_names(true);
        let ghost ns = views(names@);
        let ghost m = self.categories();
        let mut r: Vec<String> = Vec::new();
        let mut i: usize = 0;
        while i < names.len()
            invariant
                i <= names.len(),
                self.wf(),
                m == self.categories(),
                ns == views(names@),
                ns.to_set() == root_names(m),
                views(r@) == ns.take(i as int).map_values(|n: Seq<char>| count_label(n, m[n].file_count)),
            decreases names.len() - i,
        {
            let key = chars_of(names[i].as_str());
            assert(ns.contains(ns[i as int]));
            assert(ns.to_set().contains(ns[i as int]));
            assert(root_names(m).contains(ns[i as int]));
            assert(m.contains_key(ns[i as int]));
            assert(key@ == ns[i as int]);
            let idx = self.find_index(&key);
            let count = match idx {
                Some(j) => {
                    proof {
                        lemma_table_at(info_views(self.categories@), j as int);
                    }
                    self.categories[j].file_count
                },
                None => 0,
            };
            let mut label = String::new();
            crate::text::push_str(&mut label, names[i].as_str());
            crate::text::push_str(&mut label, " (");
            crate::text::push_decimal(&mut label, count as u64);
            crate::text::push_str(&mut label, ")");
            assert(count == m[ns[i as int]].file_count);
            assert(label@ == count_label(ns[i as int], m[ns[i as int]].file_count));
            let ghost before = views(r@);
            r.push(label);
            assert(views(r@) =~= before.push(label@));
            assert(ns.take(i + 1) =~= ns.take(i as int).push(ns[i as int]));
            assert(views(r@) =~= ns.take(i + 1).map_values(|n: Seq<char>| count_label(n, m[n].file_count)));
            i += 1;
        }
        assert(ns.take(names.len() as int) =~= ns);
        r
    }
}

} // verus!

verus! {

// ---------------------------------------------------------------------------
// What the edits promise
// ---------------------------------------------------------------------------

/// Adding and moving a subcategory entry changes no names.
proof fn lemma_child_edits_keep_names(m: Map<Seq<char>, InfoView>, p: Seq<char>, c: Seq<char>)
    ensures
        with_child(m, p, c).dom() == m.dom(),
        without_child(m, p, c).dom() == m.dom(),
        forall|k: Seq<char>| #[trigger] with_child(m, p, c).contains_key(k) && k != p ==> with_child(m, p, c)[k] == m[k],
{
    if m.contains_key(p) {
        assert(with_child(m, p, c).dom() =~= m.dom());
        assert(without_child(m, p, c).dom() =~= m.dom());
    }
}

/// After a successful add, the new category is in the table under the
/// chosen parent, at most three levels deep, without files, and listed
/// among the parent's subcategories when the parent is in the table. A
/// name that was taken is never added while nothing is selected.
pub proof fn lemma_add_then_present(
    m: Map<Seq<char>, InfoView>,
    selected: Option<Seq<char>>,
    name_input: Seq<char>,
    description_input: Seq<char>,
    parent: Option<Seq<char>>,
)
    requires
        add_outcome(m, selected, name_input, description_input, parent).0 is Ok,
    ensures
        ({
            let name = trim(name_input);
            let after = add_outcome(m, selected, name_input, description_input, parent).1;
            &&& after.contains_key(name)
            &&& after[name].name == name
            &&& after[name].parent == parent
            &&& after[name].level <= 3
            &&& after[name].file_count == 0
            &&& (selected is None ==> !m.contains_key(name))
            &&& (match parent {
                Some(p) => m.contains_key(p) ==> after[p].children.contains(name),
                None => true,
            })
        }),
{
    let name = trim(name_input);
    let level = new_level(m, parent);
    let m1 = m.insert(
        name,
        InfoView {
            name,
            parent,
            children: Seq::empty(),
            description: trimmed_description(description_input),
            file_count: 0,
            level,
        },
    );
    match parent {
        Some(p) => {
            lemma_child_edits_keep_names(m1, p, name);
            if m.contains_key(p) {
                assert(m1.contains_key(p));
                let e = with_child(m1, p, name)[p];
                assert(e.children == m1[p].children.push(name));
                assert(e.children[e.children.len() - 1] == name);
            }
        },
        None => {},
    }
}

/// Deleting the selected category (when it has no subcategories and the
/// deletion is confirmed) takes it out of the table and clears the
/// selection; no other category is lost.
pub proof fn lemma_delete_then_absent(m: Map<Seq<char>, InfoView>, selected: Seq<char>)
    requires
        delete_outcome(m, Some(selected), true).0 is Ok,
    ensures
        !delete_outcome(m, Some(selected), true).1.contains_key(selected),
        delete_outcome(m, Some(selected), true).2 is None,
        forall|k: Seq<char>| m.contains_key(k) && k != selected ==> #[trigger] delete_outcome(m, Some(selected), true).1.contains_key(k),
{
    if m.contains_key(selected) {
        match m[selected].parent {
            Some(p) => {
                lemma_child_edits_keep_names(m.remove(selected), p, selected);
            },
            None => {},
        }
    }
}

/// Renaming the selected category puts the new name in the table, takes
/// the old one out, and selects the new name.
pub proof fn lemma_rename_moves_name(
    m: Map<Seq<char>, InfoView>,
    selected: Seq<char>,
    name_input: Seq<char>,
    description_input: Seq<char>,
    parent: Option<Seq<char>>,
)
    requires
        m.contains_key(selected),
        update_outcome(m, Some(selected), name_input, description_input, parent).0 is Ok,
    ensures
        ({
            let name = trim(name_input);
            let (_, after, sel) = update_outcome(m, Some(selected), name_input, description_input, parent);
            &&& after.contains_key(name)
            &&& (name != selected ==> !after.contains_key(selected))
            &&& sel == Some(name)
        }),
{
    let info = m[selected];
    let name = trim(name_input);
    let m1 = m.remove(selected);
    let m2 = match info.parent {
        Some(op) => without_child(m1, op, selected),
        None => m1,
    };
    match info.parent {
        Some(op) => lemma_child_edits_keep_names(m1, op, selected),
        None => {},
    }
    let level = new_level(m2, parent);
    let info2 = InfoView { name, parent, description: trimmed_description(description_input), level, ..info };
    let m3 = m2.insert(name, info2);
    let m4 = match parent {
        Some(p) => with_child(m3, p, name),
        None => m3,
    };
    match parent {
        Some(p) => lemma_child_edits_keep_names(m3, p, name),
        None => {},
    }
    assert(m4.contains_key(name));
    if name != selected {
        assert(!m4.contains_key(selected));
        let m5 = m4.map_values(|i: InfoView| rename_refs(i, selected, name));
        assert(m5.dom() == m4.dom());
    }
}

} // verus!

verus! {

// ---------------------------------------------------------------------------
// Subcategory links
// ---------------------------------------------------------------------------

/// Whether every subcategory a category lists is a category of the table
/// whose parent is that category.
pub open spec fn links_consistent(m: Map<Seq<char>, InfoView>) -> bool {
    forall|k: Seq<char>, c: Seq<char>|
        #![trigger m[k].children.contains(c)]
        m.contains_key(k) && m[k].children.contains(c) ==> m.contains_key(c) && m[c].parent == Some(k)
}

/// What is left after removing every occurrence of `c` was there and is
/// not `c`.
proof fn lemma_remove_all_contains(s: Seq<Seq<char>>, c: Seq<char>, x: Seq<char>)
    requires
        remove_all(s, c).contains(x),
    ensures
        s.contains(x),
        x != c,
    decreases s.len(),
{
    let r = remove_all(s.drop_last(), c);
    if s.last() != c && x == s.last() {
        assert(s[s.len() - 1] == x);
    } else {
        if s.last() != c {
            let j = choose|j: int| 0 <= j < r.push(s.last()).len() && r.push(s.last())[j] == x;
            assert(r[j] == x);
        }
        lemma_remove_all_contains(s.drop_last(), c, x);
        let j = choose|j: int| 0 <= j < s.drop_last().len() && s.drop_last()[j] == x;
        assert(s[j] == x);
    }
}

/// Deleting a category keeps every listed subcategory a category of the
/// table under its parent; in particular, once the selected category is
/// deleted, no category lists it among its subcategories any more.
pub proof fn lemma_delete_keeps_links(m: Map<Seq<char>, InfoView>, selected: Option<Seq<char>>, confirmed: bool)
    requires
        links_consistent(m),
    ensures
        links_consistent(delete_outcome(m, selected, confirmed).1),
        selected is Some && delete_outcome(m, selected, confirmed).0 is Ok
            && !delete_outcome(m, selected, confirmed).1.contains_key(selected->0) ==> forall|k: Seq<char>|
            #[trigger] delete_outcome(m, selected, confirmed).1.contains_key(k)
                ==> !delete_outcome(m, selected, confirmed).1[k].children.contains(selected->0),
{
    let after = delete_outcome(m, selected, confirmed).1;
    match selected {
        None => {},
        Some(sel) => {
            if after != m {
                assert(m.contains_key(sel));
                assert(m[sel].children.len() == 0);
                let m0 = m.remove(sel);
                assert forall|k: Seq<char>, c: Seq<char>|
                    after.contains_key(k) && #[trigger] after[k].children.contains(c) implies after.contains_key(c)
                    && after[c].parent == Some(k) by {
                    match m[sel].parent {
                        Some(p) => {
                            if k == p && m0.contains_key(p) {
                                lemma_remove_all_contains(m[p].children, sel, c);
                            }
                        },
                        None => {},
                    }
                    assert(m.contains_key(k) && m[k].children.contains(c));
                    if c == sel {
                        assert(m[sel].parent == Some(k));
                    }
                }
            }
            if delete_outcome(m, selected, confirmed).0 is Ok && !after.contains_key(sel) {
                assert forall|k: Seq<char>| #[trigger] after.contains_key(k) implies !after[k].children.contains(sel) by {
                    if after[k].children.contains(sel) {
                        assert(after.contains_key(sel));
                    }
                }
            }
        },
    }
}

/// Adding a category under a new name keeps every listed subcategory a
/// category of the table under its parent (the new category is listed by
/// its parent, when the parent is in the table).
pub proof fn lemma_add_keeps_links(
    m: Map<Seq<char>, InfoView>,
    selected: Option<Seq<char>>,
    name_input: Seq<char>,
    description_input: Seq<char>,
    parent: Option<Seq<char>>,
)
    requires
        links_consistent(m),
        !m.contains_key(trim(name_input)),
    ensures
        links_consistent(add_outcome(m, selected, name_input, description_input, parent).1),
{
    let after = add_outcome(m, selected, name_input, description_input, parent).1;
    let name = trim(name_input);
    if after != m {
        let m1 = m.insert(
            name,
            InfoView {
                name,
                parent,
                children: Seq::empty(),
                description: trimmed_description(description_input),
                file_count: 0,
                level: new_level(m, parent),
            },
        );
        let m2 = match parent {
            Some(p) => with_child(m1, p, name),
            None => m1,
        };
        assert(after == m2);
        assert forall|k: Seq<char>, c: Seq<char>|
            after.contains_key(k) && #[trigger] after[k].children.contains(c) implies after.contains_key(c)
            && after[c].parent == Some(k) by {
            if parent is Some && parent->0 == k && m1.contains_key(k) {
                let ch = m1[k].children;
                assert(after[k].children == ch.push(name));
                if c != name {
                    let j = choose|j: int| 0 <= j < ch.push(name).len() && ch.push(name)[j] == c;
                    assert(ch[j] == c);
                    assert(k != name);
                    assert(m[k].children.contains(c));
                    assert(m.contains_key(c) && m[c].parent == Some(k));
                } else {
                    assert(after[name].parent == Some(k));
                }
            } else {
                assert(after[k] == m1[k]);
                if k == name {
                    assert(m1[k].children.len() == 0);
                } else {
                    assert(m[k].children.contains(c));
                    assert(m.contains_key(c) && m[c].parent == Some(k));
                    assert(c != name);
                    assert(after.contains_key(c));
                    assert(after[c].parent == m[c].parent);
                }
            }
        }
    }
}

/// Once the only subcategory of a category is deleted, the category itself
/// can be deleted: it no longer lists any subcategory.
pub proof fn lemma_delete_child_then_parent(m: Map<Seq<char>, InfoView>, child: Seq<char>, parent: Seq<char>)
    requires
        links_consistent(m),
        m.contains_key(child),
        m.contains_key(parent),
        child != parent,
        m[child].parent == Some(parent),
        m[child].children.len() == 0,
        forall|k: Seq<char>| #[trigger] m.contains_key(k) && m[k].parent == Some(parent) ==> k == child,
    ensures
        delete_outcome(m, Some(child), true).0 is Ok,
        delete_outcome(delete_outcome(m, Some(child), true).1, Some(parent), true).0 is Ok,
        !delete_outcome(delete_outcome(m, Some(child), true).1, Some(parent), true).1.contains_key(parent),
{
    let m1 = delete_outcome(m, Some(child), true).1;
    let m0 = m.remove(child);
    assert(m1 == without_child(m0, parent, child));
    assert(m0.contains_key(parent));
    let left = remove_all(m[parent].children, child);
    assert(m1[parent].children == left);
    if left.len() > 0 {
        assert(left.contains(left[0]));
        lemma_remove_all_contains(m[parent].children, child, left[0]);
        assert(m[parent].children.contains(left[0]));
        assert(m.contains_key(left[0]) && m[left[0]].parent == Some(parent));
    }
    assert(m1.contains_key(parent));
}

} // verus!
