//! Library statistics: how many files, categories and authors there are,
//! how the files spread over categories, file types and authors, how many
//! were imported recently, and the reports shown for them.

use vstd::prelude::*;

use crate::counting::{distinct, lemma_distinct_contains, occurrences, tally};
use crate::library::StoredFile;
use crate::text::{decimal, lowercase, push_decimal, push_str, to_lowercase, views};

verus! {

broadcast use vstd::string::group_string_axioms;

// ---------------------------------------------------------------------------
// What is counted
// ---------------------------------------------------------------------------

/// Every category value of the files: each file's first level, and its
/// second and third when present.
pub open spec fn category_values(fs: Seq<StoredFile>) -> Seq<Seq<char>>
    decreases fs.len(),
{
    if fs.len() == 0 {
        Seq::empty()
    } else {
        let f = fs.last();
        category_values(fs.drop_last()) + seq![f.category1@] + match f.category2 {
            Some(c) => seq![c@],
            None => Seq::empty(),
        } + match f.category3 {
            Some(c) => seq![c@],
            None => Seq::empty(),
        }
    }
}

/// Every author entry of the files, with the file's first level and year.
pub open spec fn author_entries(fs: Seq<StoredFile>) -> Seq<(Seq<char>, Seq<char>, Option<i32>)>
    decreases fs.len(),
{
    if fs.len() == 0 {
        Seq::empty()
    } else {
        let f = fs.last();
        author_entries(fs.drop_last()) + views(f.authors@).map_values(
            |a: Seq<char>| (a, f.category1@, f.year),
        )
    }
}

/// The author names of the entries.
pub open spec fn entry_names(e: Seq<(Seq<char>, Seq<char>, Option<i32>)>) -> Seq<Seq<char>> {
    e.map_values(|x: (Seq<char>, Seq<char>, Option<i32>)| x.0)
}

/// The file type of a file: the extension of its path in lower case, or
/// "unknown" when it has none.
pub open spec fn file_type(f: StoredFile) -> Seq<char> {
    lowercase(
        match crate::paths::path_extension(f.path@) {
            Some(e) => e,
            None => "Unknown"@,
        },
    )
}

/// The file types of the files.
pub open spec fn file_types(fs: Seq<StoredFile>) -> Seq<Seq<char>> {
    fs.map_values(|f: StoredFile| file_type(f))
}

/// The first levels of the files.
pub open spec fn first_levels(fs: Seq<StoredFile>) -> Seq<Seq<char>> {
    fs.map_values(|f: StoredFile| f.category1@)
}

/// The number of files modified after the cutoff (files whose time is not
/// known do not count).
pub open spec fn recent_count(modified: Seq<Option<i64>>, cutoff: i64) -> nat {
    modified.filter(|m: Option<i64>| m is Some && m->0 > cutoff).len()
}

/// The categories an author's files are in, and the years they are from,
/// each in the order they first occur.
pub open spec fn author_categories(e: Seq<(Seq<char>, Seq<char>, Option<i32>)>, a: Seq<char>) -> Seq<Seq<char>> {
    distinct(e.filter(|x: (Seq<char>, Seq<char>, Option<i32>)| x.0 == a).map_values(|x: (Seq<char>, Seq<char>, Option<i32>)| x.1))
}

/// The years of an author's files, in the order they first occur.
pub open spec fn author_years(e: Seq<(Seq<char>, Seq<char>, Option<i32>)>, a: Seq<char>) -> Seq<i32> {
    distinct(e.filter(|x: (Seq<char>, Seq<char>, Option<i32>)| x.0 == a && x.2 is Some).map_values(|x: (Seq<char>, Seq<char>, Option<i32>)| x.2->0))
}

// ---------------------------------------------------------------------------
// The statistics
// ---------------------------------------------------------------------------

/// An author's share of the library.
#[derive(Clone, Debug)]
pub struct AuthorStats {
    pub name: String,
    pub file_count: usize,
    pub categories: Vec<String>,
    pub years: Vec<i32>,
}

/// The statistics of the library. Sizes are not known to the library and
/// are zero.
#[derive(Clone, Debug)]
pub struct FileStatistics {
    pub total_files: usize,
    pub total_size: u64,
    pub total_categories: usize,
    pub total_authors: usize,
    pub recent_imports: usize,
    pub category_distribution: Vec<(String, usize)>,
    pub filetype_distribution: Vec<(String, usize)>,
    pub author_distribution: Vec<AuthorStats>,
}

/// A list of names with counts as the distinct names of `keys` with how
/// often each occurs, in order of first occurrence.
pub open spec fn is_tally(r: Seq<(String, usize)>, keys: Seq<Seq<char>>) -> bool {
    &&& r.len() == distinct(keys).len()
    &&& forall|i: int| 0 <= i < r.len() ==> #[trigger] r[i].0@ == distinct(keys)[i] && r[i].1 == occurrences(keys, r[i].0@)
}

/// The author statistics as the distinct authors with their counts,
/// categories and years.
pub open spec fn is_author_tally(r: Seq<AuthorStats>, e: Seq<(Seq<char>, Seq<char>, Option<i32>)>) -> bool {
    let names = entry_names(e);
    &&& r.len() == distinct(names).len()
    &&& forall|i: int| 0 <= i < r.len() ==> {
        &&& #[trigger] r[i].name@ == distinct(names)[i]
        &&& r[i].file_count == occurrences(names, r[i].name@)
        &&& views(r[i].categories@) == author_categories(e, r[i].name@)
        &&& r[i].years@ == author_years(e, r[i].name@)
    }
}

/// The facts the statistics hold about the files.
pub open spec fn statistics_of(s: FileStatistics, fs: Seq<StoredFile>, modified: Seq<Option<i64>>, cutoff: i64) -> bool {
    &&& s.total_files == fs.len()
    &&& s.total_size == 0
    &&& s.total_categories == distinct(category_values(fs)).len()
    &&& s.total_authors == distinct(entry_names(author_entries(fs))).len()
    &&& s.recent_imports == recent_count(modified, cutoff)
    &&& is_tally(s.category_distribution@, first_levels(fs))
    &&& is_tally(s.filetype_distribution@, file_types(fs))
    &&& is_author_tally(s.author_distribution@, author_entries(fs))
}

/// The number of distinct names in a list.
fn distinct_count(keys: &Vec<String>) -> (r: usize)
    ensures
        r == distinct(views(keys@)).len(),
{
    tally(keys).len()
}

/// The distinct elements of a list of years.
fn distinct_years(ys: &Vec<i32>) -> (r: Vec<i32>)
    ensures
        r@ == distinct(ys@),
{
    let mut r: Vec<i32> = Vec::new();
    let mut i: usize = 0;
    while i < ys.len()
        invariant
            i <= ys.len(),
            r@ == distinct(ys@.take(i as int)),
        decreases ys.len() - i,
    {
        let mut j: usize = 0;
        let mut seen = false;
        while j < r.len()
            invariant
                j <= r@.len(),
                i < ys@.len(),
                seen == r@.take(j as int).contains(ys@[i as int]),
            decreases r@.len() - j,
        {
            if r[j] == ys[i] {
                seen = true;
                assert(r@.take(j + 1)[j as int] == ys@[i as int]);
            } else {
                proof {
                    let t1 = r@.take(j + 1);
                    if t1.contains(ys@[i as int]) {
                        let q = choose|q: int| 0 <= q < t1.len() && t1[q] == ys@[i as int];
                        assert(r@.take(j as int)[q] == ys@[i as int]);
                    }
                }
            }
            assert(r@.take(j + 1) =~= r@.take(j as int).push(r@[j as int]));
            j += 1;
        }
        assert(r@.take(r@.len() as int) =~= r@);
        assert(ys@.take(i + 1).drop_last() =~= ys@.take(i as int));
        if !seen {
            r.push(ys[i]);
        }
        i += 1;
    }
    assert(ys@.take(ys.len() as int) =~= ys@);
    r
}

/// The number of recently modified files.
fn count_recent(modified: &Vec<Option<i64>>, cutoff: i64) -> (r: usize)
    ensures
        r == recent_count(modified@, cutoff),
        r <= modified@.len(),
{
    let ghost p = |m: Option<i64>| m is Some && m->0 > cutoff;
    let mut n: usize = 0;
    let mut i: usize = 0;
    while i < modified.len()
        invariant
            i <= modified.len(),
            n == modified@.take(i as int).filter(p).len(),
            n <= i,
            p == (|m: Option<i64>| m is Some && m->0 > cutoff),
        decreases modified.len() - i,
    {
        reveal(Seq::filter);
        assert(modified@.take(i + 1).drop_last() =~= modified@.take(i as int));
        match modified[i] {
            Some(t) => {
                if t > cutoff {
                    n += 1;
                }
            },
            None => {},
        }
        i += 1;
    }
    assert(modified@.take(modified.len() as int) =~= modified@);
    n
}

/// The file type of a file.
fn file_type_of(f: &StoredFile) -> (r: String)
    ensures
        r@ == file_type(*f),
{
    let ext = match crate::paths::extension_name(f.path.as_str()) {
        Some(e) => e,
        None => "Unknown".to_owned(),
    };
    to_lowercase(ext.as_str())
}

/// An author's statistics from the author entries.
fn author_stats_of(entries: &Vec<(String, String, Option<i32>)>, name: &String, count: usize) -> (r: AuthorStats)
    ensures
        r.name@ == name@,
        r.file_count == count,
        views(r.categories@) == author_categories(entry_views(entries@), name@),
        r.years@ == author_years(entry_views(entries@), name@),
{
    let ghost e = entry_views(entries@);
    let ghost pa = |x: (Seq<char>, Seq<char>, Option<i32>)| x.0 == name@;
    let ghost py = |x: (Seq<char>, Seq<char>, Option<i32>)| x.0 == name@ && x.2 is Some;
    let mut cats: Vec<String> = Vec::new();
    let mut years: Vec<i32> = Vec::new();
    let mut i: usize = 0;
    while i < entries.len()
        invariant
            i <= entries.len(),
            e == entry_views(entries@),
            pa == (|x: (Seq<char>, Seq<char>, Option<i32>)| x.0 == name@),
            py == (|x: (Seq<char>, Seq<char>, Option<i32>)| x.0 == name@ && x.2 is Some),
            views(cats@) == e.take(i as int).filter(pa).map_values(|x: (Seq<char>, Seq<char>, Option<i32>)| x.1),
            years@ == e.take(i as int).filter(py).map_values(|x: (Seq<char>, Seq<char>, Option<i32>)| x.2->0),
        decreases entries.len() - i,
    {
        reveal(Seq::filter);
        assert(e.take(i + 1).drop_last() =~= e.take(i as int));
        assert(e[i as int] == (entries@[i as int].0@, entries@[i as int].1@, entries@[i as int].2));
        if entries[i].0 == *name {
            let ghost bc = views(cats@);
            cats.push(entries[i].1.clone());
            assert(views(cats@) =~= bc.push(entries@[i as int].1@));
            match entries[i].2 {
                Some(y) => {
                    years.push(y);
                },
                None => {},
            }
        }
        assert(views(cats@) =~= e.take(i + 1).filter(pa).map_values(|x: (Seq<char>, Seq<char>, Option<i32>)| x.1));
        assert(years@ =~= e.take(i + 1).filter(py).map_values(|x: (Seq<char>, Seq<char>, Option<i32>)| x.2->0));
        i += 1;
    }
    assert(e.take(entries.len() as int) =~= e);
    let cat_tally = tally(&cats);
    let mut categories: Vec<String> = Vec::new();
    let mut k: usize = 0;
    while k < cat_tally.len()
        invariant
            k <= cat_tally.len(),
            cat_tally@.len() == distinct(views(cats@)).len(),
            forall|q: int| 0 <= q < cat_tally@.len() ==> #[trigger] cat_tally@[q].0@ == distinct(views(cats@))[q],
            views(categories@) == distinct(views(cats@)).take(k as int),
        decreases cat_tally.len() - k,
    {
        let ghost before = views(categories@);
        categories.push(cat_tally[k].0.clone());
        assert(cat_tally@[k as int].0@ == distinct(views(cats@))[k as int]);
        assert(views(categories@) =~= before.push(cat_tally@[k as int].0@));
        assert(distinct(views(cats@)).take(k + 1) =~= distinct(views(cats@)).take(k as int).push(distinct(views(cats@))[k as int]));
        assert(views(categories@) =~= distinct(views(cats@)).take(k + 1));
        k += 1;
    }
    assert(distinct(views(cats@)).take(cat_tally.len() as int) =~= distinct(views(cats@)));
    AuthorStats { name: name.clone(), file_count: count, categories, years: distinct_years(&years) }
}

/// The values of author entries.
pub open spec fn entry_views(v: Seq<(String, String, Option<i32>)>) -> Seq<(Seq<char>, Seq<char>, Option<i32>)> {
    v.map_values(|x: (String, String, Option<i32>)| (x.0@, x.1@, x.2))
}

/// Computes the statistics of the library, given for each file the time it
/// was last modified (in seconds, when known) and the time 30 days ago.
/// There are never more recent imports than files.
pub fn load_statistics(files: &Vec<StoredFile>, modified: &Vec<Option<i64>>, cutoff: i64) -> (r: FileStatistics)
    requires
        modified@.len() == files@.len(),
    ensures
        statistics_of(r, files@, modified@, cutoff),
        r.recent_imports <= r.total_files,
{
    let mut cats: Vec<String> = Vec::new();
    let mut firsts: Vec<String> = Vec::new();
    let mut types: Vec<String> = Vec::new();
    let mut entries: Vec<(String, String, Option<i32>)> = Vec::new();
    let mut i: usize = 0;
    while i < files.len()
        invariant
            i <= files.len(),
            views(cats@) == category_values(files@.take(i as int)),
            views(firsts@) == first_levels(files@.take(i as int)),
            views(types@) == file_types(files@.take(i as int)),
            entry_views(entries@) == author_entries(files@.take(i as int)),
        decreases files.len() - i,
    {
        let f = &files[i];
        let ghost t1 = files@.take(i + 1);
        assert(t1.drop_last() =~= files@.take(i as int));
        assert(t1 =~= files@.take(i as int).push(files@[i as int]));
        let ghost bc = views(cats@);
        cats.push(f.category1.clone());
        match &f.category2 {
            Some(c) => cats.push(c.clone()),
            None => {},
        }
        match &f.category3 {
            Some(c) => cats.push(c.clone()),
            None => {},
        }
        assert(views(cats@) =~= category_values(t1));
        let ghost bf = views(firsts@);
        firsts.push(f.category1.clone());
        assert(views(firsts@) =~= bf.push(f.category1@));
        assert(views(firsts@) =~= first_levels(t1));
        let ghost bt = views(types@);
        let ft = file_type_of(f);
        types.push(ft);
        assert(views(types@) =~= bt.push(ft@));
        assert(views(types@) =~= file_types(t1));
        let ghost be = entry_views(entries@);
        let mut k: usize = 0;
        while k < f.authors.len()
            invariant
                k <= f.authors.len(),
                i < files.len(),
                f == &files@[i as int],
                entry_views(entries@) == be + views(f.authors@).take(k as int).map_values(|a: Seq<char>| (a, f.category1@, f.year)),
            decreases f.authors.len() - k,
        {
            let ghost before = entry_views(entries@);
            entries.push((f.authors[k].clone(), f.category1.clone(), f.year));
            assert(entry_views(entries@) =~= before.push((f.authors@[k as int]@, f.category1@, f.year)));
            assert(views(f.authors@).take(k + 1) =~= views(f.authors@).take(k as int).push(f.authors@[k as int]@));
            assert(entry_views(entries@) =~= be + views(f.authors@).take(k + 1).map_values(|a: Seq<char>| (a, f.category1@, f.year)));
            k += 1;
        }
        assert(views(f.authors@).take(f.authors.len() as int) =~= views(f.authors@));
        assert(entry_views(entries@) =~= author_entries(t1));
        i += 1;
    }
    assert(files@.take(files.len() as int) =~= files@);
    let mut names: Vec<String> = Vec::new();
    let mut j: usize = 0;
    while j < entries.len()
        invariant
            j <= entries.len(),
            views(names@) == entry_names(entry_views(entries@)).take(j as int),
        decreases entries.len() - j,
    {
        let ghost before = views(names@);
        names.push(entries[j].0.clone());
        assert(views(names@) =~= before.push(entries@[j as int].0@));
        assert(entry_names(entry_views(entries@))[j as int] == entries@[j as int].0@);
        assert(views(names@) =~= entry_names(entry_views(entries@)).take(j + 1));
        j += 1;
    }
    assert(entry_names(entry_views(entries@)).take(entries.len() as int) =~= entry_names(entry_views(entries@)));
    let author_tally = tally(&names);
    let mut authors: Vec<AuthorStats> = Vec::new();
    let mut q: usize = 0;
    while q < author_tally.len()
        invariant
            q <= author_tally.len(),
            views(names@) == entry_names(entry_views(entries@)),
            author_tally@.len() == distinct(views(names@)).len(),
            forall|z: int| 0 <= z < author_tally@.len() ==> #[trigger] author_tally@[z].0@ == distinct(views(names@))[z] && author_tally@[z].1 == occurrences(views(names@), author_tally@[z].0@),
            authors@.len() == q,
            forall|z: int| 0 <= z < q ==> {
                &&& #[trigger] authors@[z].name@ == distinct(views(names@))[z]
                &&& authors@[z].file_count == occurrences(views(names@), authors@[z].name@)
                &&& views(authors@[z].categories@) == author_categories(entry_views(entries@), authors@[z].name@)
                &&& authors@[z].years@ == author_years(entry_views(entries@), authors@[z].name@)
            },
        decreases author_tally.len() - q,
    {
        let a = author_stats_of(&entries, &author_tally[q].0, author_tally[q].1);
        authors.push(a);
        q += 1;
    }
    FileStatistics {
        total_files: files.len(),
        total_size: 0,
        total_categories: distinct_count(&cats),
        total_authors: author_tally.len(),
        recent_imports: count_recent(modified, cutoff),
        category_distribution: tally(&firsts),
        filetype_distribution: tally(&types),
        author_distribution: authors,
    }
}

// ---------------------------------------------------------------------------
// Reports
// ---------------------------------------------------------------------------

/// The advice at the end of the timeline report: none recent, many (more
/// than 50), or a moderate number of recent imports.
pub open spec fn recommendations_spec(recent: nat) -> Seq<char> {
    if recent == 0 {
        "- No recent imports detected\n- Consider importing new content\n"@
    } else if recent > 50 {
        "- High import activity detected\n- Consider organizing new content into categories\n"@
    } else {
        "- Moderate import activity\n- Collection is actively maintained\n"@
    }
}

/// The advice at the end of the timeline report.
pub fn recommendations(recent: usize) -> (r: &'static str)
    ensures
        r@ == recommendations_spec(recent as nat),
{
    if recent == 0 {
        "- No recent imports detected\n- Consider importing new content\n"
    } else if recent > 50 {
        "- High import activity detected\n- Consider organizing new content into categories\n"
    } else {
        "- Moderate import activity\n- Collection is actively maintained\n"
    }
}

/// Whether a list is ordered by count, largest first.
pub open spec fn by_count_desc(s: Seq<(String, usize)>) -> bool {
    forall|i: int, j: int| 0 <= i < j < s.len() ==> #[trigger] s[i].1 >= #[trigger] s[j].1
}

/// `t` with `x` put right after the last entry whose count is at least
/// `x`'s.
pub open spec fn insert_by_count(t: Seq<(String, usize)>, x: (String, usize)) -> Seq<(String, usize)>
    decreases t.len(),
{
    if t.len() == 0 {
        seq![x]
    } else if t.last().1 >= x.1 {
        t.push(x)
    } else {
        insert_by_count(t.drop_last(), x).push(t.last())
    }
}

/// The entries stably sorted by count, largest first: each entry in turn
/// placed after the entries before it with at least its count.
pub open spec fn sorted_by_count(s: Seq<(String, usize)>) -> Seq<(String, usize)>
    decreases s.len(),
{
    if s.len() == 0 {
        s
    } else {
        insert_by_count(sorted_by_count(s.drop_last()), s.last())
    }
}

/// In a list ordered by count, inserting before the first entry with a
/// smaller count is the stable insertion.
proof fn lemma_insert_by_count_at(t: Seq<(String, usize)>, x: (String, usize), j: int)
    requires
        by_count_desc(t),
        0 <= j <= t.len(),
        forall|k: int| 0 <= k < j ==> #[trigger] t[k].1 >= x.1,
        j < t.len() ==> t[j].1 < x.1,
    ensures
        insert_by_count(t, x) == t.insert(j, x),
    decreases t.len(),
{
    if j == t.len() {
        if t.len() == 0 {
            assert(t.insert(0, x) =~= seq![x]);
        } else {
            assert(t[t.len() - 1].1 >= x.1);
            assert(t.insert(j, x) =~= t.push(x));
        }
    } else {
        let u = t.drop_last();
        if j < t.len() - 1 {
            assert(t[j].1 >= t[t.len() - 1].1);
        }
        assert(!(t.last().1 >= x.1));
        assert(by_count_desc(u)) by {
            assert forall|a: int, b: int| 0 <= a < b < u.len() implies #[trigger] u[a].1 >= #[trigger] u[b].1 by {
                assert(u[a] == t[a] && u[b] == t[b]);
            }
        }
        assert forall|k: int| 0 <= k < j implies #[trigger] u[k].1 >= x.1 by {
            assert(u[k] == t[k]);
        }
        if j < u.len() {
            assert(u[j] == t[j]);
        }
        lemma_insert_by_count_at(u, x, j);
        assert(t.insert(j, x) =~= u.insert(j, x).push(t.last()));
    }
}

/// The list stably ordered by count, largest first: entries with equal
/// counts keep their order.
pub fn sort_by_count(v: &Vec<(String, usize)>) -> (r: Vec<(String, usize)>)
    ensures
        r@ == sorted_by_count(v@),
        by_count_desc(r@),
        r@.to_multiset() == v@.to_multiset(),
{
    broadcast use vstd::seq_lib::group_to_multiset_ensures;

    let mut r: Vec<(String, usize)> = Vec::new();
    let mut i: usize = 0;
    while i < v.len()
        invariant
            i <= v.len(),
            by_count_desc(r@),
            r@.to_multiset() == v@.take(i as int).to_multiset(),
            r@ == sorted_by_count(v@.take(i as int)),
        decreases v.len() - i,
    {
        let count = v[i].1;
        let mut j: usize = 0;
        while j < r.len() && r[j].1 >= count
            invariant
                j <= r@.len(),
                forall|k: int| 0 <= k < j ==> r@[k].1 >= count,
            decreases r@.len() - j,
        {
            j += 1;
        }
        let item = (v[i].0.clone(), count);
        assert(item == v@[i as int]);
        let ghost old_r = r@;
        proof {
            lemma_insert_by_count_at(old_r, item, j as int);
            assert(v@.take(i + 1).drop_last() =~= v@.take(i as int));
        }
        r.insert(j, item);
        proof {
            vstd::seq_lib::to_multiset_insert(old_r, j as int, item);
            vstd::seq_lib::to_multiset_build(v@.take(i as int), v@[i as int]);
            assert(v@.take(i + 1) =~= v@.take(i as int).push(v@[i as int]));
            assert(r@ =~= old_r.insert(j as int, item));
            assert forall|a: int, b: int| 0 <= a < b < r@.len() implies #[trigger] r@[a].1 >= #[trigger] r@[b].1 by {
                if b < j {
                    assert(r@[a] == old_r[a] && r@[b] == old_r[b]);
                } else if b == j {
                    assert(r@[a] == old_r[a]);
                } else if a == j {
                    assert(r@[b] == old_r[b - 1]);
                    if j < old_r.len() {
                        assert(!(old_r[j as int].1 >= count));
                        if b - 1 > j {
                            assert(old_r[j as int].1 >= old_r[b - 1].1);
                        }
                    }
                } else if a < j {
                    assert(r@[a] == old_r[a] && r@[b] == old_r[b - 1]);
                } else {
                    assert(r@[a] == old_r[a - 1] && r@[b] == old_r[b - 1]);
                }
            }
        }
        i += 1;
    }
    assert(v@.take(v.len() as int) =~= v@);
    r
}

/// The category report: a heading, then for each category (most files
/// first) its name, file count, size (always "0 B") and recent files.
pub open spec fn category_report_spec(sorted: Seq<(String, usize)>) -> Seq<char>
    decreases sorted.len(),
{
    if sorted.len() == 0 {
        "Category Distribution Analysis\n==============================\n\n"@
    } else {
        category_report_spec(sorted.drop_last()) + "📁 "@ + sorted.last().0@ + "\n   Files: "@
            + decimal(sorted.last().1 as nat) + "\n   Size: 0 B\n   Recent: 0\n\n"@
    }
}

/// The category report for categories already in report order.
pub fn category_report(sorted: &Vec<(String, usize)>) -> (r: String)
    ensures
        r@ == category_report_spec(sorted@),
{
    let mut r = String::new();
    push_str(&mut r, "Category Distribution Analysis\n==============================\n\n");
    let mut i: usize = 0;
    assert(sorted@.take(0) =~= Seq::<(String, usize)>::empty());
    while i < sorted.len()
        invariant
            i <= sorted.len(),
            r@ == category_report_spec(sorted@.take(i as int)),
        decreases sorted.len() - i,
    {
        push_str(&mut r, "📁 ");
        push_str(&mut r, sorted[i].0.as_str());
        push_str(&mut r, "\n   Files: ");
        push_decimal(&mut r, sorted[i].1 as u64);
        push_str(&mut r, "\n   Size: 0 B\n   Recent: 0\n\n");
        assert(sorted@.take(i + 1).drop_last() =~= sorted@.take(i as int));
        i += 1;
    }
    assert(sorted@.take(sorted.len() as int) =~= sorted@);
    r
}

} // verus!
