//! Ordering the file list by one of its columns, ascending or descending,
//! keeping files that are level in that column in the order they had.

use vstd::prelude::*;

use crate::library::{copy_stored, lemma_lex_le_total, lemma_lex_le_transitive, lex_le, lex_le_chars, StoredFile, StoredView};
use crate::metadata::{join_spec, join_with};
use crate::session::stored_file_views;
use crate::text::chars_of;

verus! {

broadcast use vstd::string::group_string_axioms;

/// The text the title column sorts by: the title, or the original file
/// name when the title is empty.
pub open spec fn title_key(f: StoredView) -> Seq<char> {
    if f.title.len() == 0 {
        f.original_filename
    } else {
        f.title
    }
}

/// The text the authors column sorts by: the authors joined by ", ".
pub open spec fn authors_key(f: StoredView) -> Seq<char> {
    join_spec(f.authors, ", "@)
}

/// The order of years: an unknown year first, then by value.
pub open spec fn year_le(a: Option<i32>, b: Option<i32>) -> bool {
    match a {
        None => true,
        Some(x) => match b {
            None => false,
            Some(y) => x <= y,
        },
    }
}

/// Whether `a` comes no later than `b` by a column: 0 the title, 1 the
/// authors, 2 the year, 4 the size in bytes; by any other column all files
/// are level.
pub open spec fn column_le(column: i32, a: StoredView, b: StoredView) -> bool {
    if column == 0 {
        lex_le(title_key(a), title_key(b))
    } else if column == 1 {
        lex_le(authors_key(a), authors_key(b))
    } else if column == 2 {
        year_le(a.year, b.year)
    } else if column == 4 {
        a.file_size_bytes <= b.file_size_bytes
    } else {
        true
    }
}

/// Whether a file `t` may come before `x` in the chosen direction: `t` is
/// not after `x` (ascending), or `x` is not after `t` (descending).
pub open spec fn may_precede(column: i32, ascending: bool, t: StoredView, x: StoredView) -> bool {
    if ascending {
        column_le(column, t, x)
    } else {
        column_le(column, x, t)
    }
}

/// `t` with `x` put right after the last file that may come before it.
pub open spec fn insert_file(t: Seq<StoredView>, x: StoredView, column: i32, ascending: bool) -> Seq<StoredView>
    decreases t.len(),
{
    if t.len() == 0 {
        seq![x]
    } else if may_precede(column, ascending, t.last(), x) {
        t.push(x)
    } else {
        insert_file(t.drop_last(), x, column, ascending).push(t.last())
    }
}

/// The files stably sorted by a column in a direction: each file in turn
/// placed after the files before it that may come before it.
pub open spec fn sorted_files(s: Seq<StoredView>, column: i32, ascending: bool) -> Seq<StoredView>
    decreases s.len(),
{
    if s.len() == 0 {
        s
    } else {
        insert_file(sorted_files(s.drop_last(), column, ascending), s.last(), column, ascending)
    }
}

/// The title column's text of a file.
fn title_key_of(f: &StoredFile) -> (r: Vec<char>)
    ensures
        r@ == title_key(f@),
{
    if f.title.as_str().is_empty() {
        chars_of(f.original_filename.as_str())
    } else {
        chars_of(f.title.as_str())
    }
}

/// The authors column's text of a file.
fn authors_key_of(f: &StoredFile) -> (r: Vec<char>)
    ensures
        r@ == authors_key(f@),
{
    let joined = join_with(&f.authors, ", ");
    chars_of(joined.as_str())
}

/// Whether `a` comes no later than `b` by a column.
fn column_le_of(column: i32, a: &StoredFile, b: &StoredFile) -> (r: bool)
    ensures
        r == column_le(column, a@, b@),
{
    if column == 0 {
        lex_le_chars(&title_key_of(a), &title_key_of(b))
    } else if column == 1 {
        lex_le_chars(&authors_key_of(a), &authors_key_of(b))
    } else if column == 2 {
        match a.year {
            None => true,
            Some(x) => match b.year {
                None => false,
                Some(y) => x <= y,
            },
        }
    } else if column == 4 {
        a.file_size_bytes <= b.file_size_bytes
    } else {
        true
    }
}

/// Whether `t` may come before `x` in the chosen direction.
fn may_precede_of(column: i32, ascending: bool, t: &StoredFile, x: &StoredFile) -> (r: bool)
    ensures
        r == may_precede(column, ascending, t@, x@),
{
    if ascending {
        column_le_of(column, t, x)
    } else {
        column_le_of(column, x, t)
    }
}

/// Inserting `x` where the files after position `j` may not come before it
/// and the file before `j` may.
proof fn lemma_insert_at(t: Seq<StoredView>, x: StoredView, column: i32, ascending: bool, j: int)
    requires
        0 <= j <= t.len(),
        j == 0 || may_precede(column, ascending, t[j - 1], x),
        forall|m: int| j <= m < t.len() ==> !may_precede(column, ascending, #[trigger] t[m], x),
    ensures
        insert_file(t, x, column, ascending) == t.insert(j, x),
    decreases t.len() - j,
{
    if j == t.len() {
        if t.len() == 0 {
            assert(t.insert(0, x) =~= seq![x]);
        } else {
            assert(t.insert(j, x) =~= t.push(x));
        }
    } else {
        let u = t.drop_last();
        assert(!may_precede(column, ascending, t[t.len() - 1], x));
        assert forall|m: int| j <= m < u.len() implies !may_precede(column, ascending, #[trigger] u[m], x) by {
            assert(u[m] == t[m]);
        }
        if j > 0 {
            assert(u[j - 1] == t[j - 1]);
        }
        lemma_insert_at(u, x, column, ascending, j);
        assert(t.insert(j, x) =~= u.insert(j, x).push(t.last()));
    }
}

/// Sorts the files by a column (0 title, 1 authors, 2 year, 4 size), ascending or
/// descending; files level in that column keep their order, and by any
/// other column the order is kept as it is.
pub fn sort_by_column(files: &mut Vec<StoredFile>, column: i32, ascending: bool)
    ensures
        stored_file_views(final(files)@) == sorted_files(stored_file_views(old(files)@), column, ascending),
{
    let ghost src = stored_file_views(files@);
    let mut r: Vec<StoredFile> = Vec::new();
    let mut i: usize = 0;
    while i < files.len()
        invariant
            i <= files.len(),
            src == stored_file_views(files@),
            stored_file_views(r@) == sorted_files(src.take(i as int), column, ascending),
        decreases files.len() - i,
    {
        let x = copy_stored(&files[i]);
        let mut j = r.len();
        let mut placed = false;
        while j > 0 && !placed
            invariant
                j <= r.len(),
                forall|m: int| j <= m < r@.len() ==> !may_precede(column, ascending, #[trigger] r@[m]@, x@),
                placed ==> j > 0 && may_precede(column, ascending, r@[j - 1]@, x@),
            decreases j + (if placed { 0int } else { 1int }),
        {
            if may_precede_of(column, ascending, &r[j - 1], &x) {
                placed = true;
            } else {
                j -= 1;
            }
        }
        proof {
            let t = stored_file_views(r@);
            assert forall|m: int| j <= m < t.len() implies !may_precede(column, ascending, #[trigger] t[m], x@) by {
                assert(t[m] == r@[m]@);
            }
            if j > 0 {
                assert(t[j - 1] == r@[j - 1]@);
            }
            lemma_insert_at(t, x@, column, ascending, j as int);
            assert(src.take(i + 1).drop_last() =~= src.take(i as int));
            assert(src.take(i + 1).last() == x@);
        }
        let ghost before = r@;
        r.insert(j, x);
        proof {
            assert(stored_file_views(r@) =~= stored_file_views(before).insert(j as int, x@));
        }
        i += 1;
    }
    assert(src.take(files.len() as int) =~= src);
    *files = r;
}

} // verus!

verus! {

/// Whether each file may come before every file after it.
pub open spec fn in_order(s: Seq<StoredView>, column: i32, ascending: bool) -> bool {
    forall|i: int, j: int| 0 <= i < j < s.len() ==> may_precede(column, ascending, #[trigger] s[i], #[trigger] s[j])
}

/// Of two files, one may come before the other.
proof fn lemma_may_precede_total(column: i32, ascending: bool, a: StoredView, b: StoredView)
    ensures
        may_precede(column, ascending, a, b) || may_precede(column, ascending, b, a),
{
    lemma_lex_le_total(title_key(a), title_key(b));
    lemma_lex_le_total(authors_key(a), authors_key(b));
}

/// Coming before is transitive.
proof fn lemma_may_precede_transitive(column: i32, ascending: bool, a: StoredView, b: StoredView, c: StoredView)
    requires
        may_precede(column, ascending, a, b),
        may_precede(column, ascending, b, c),
    ensures
        may_precede(column, ascending, a, c),
{
    if ascending {
        if column == 0 {
            lemma_lex_le_transitive(title_key(a), title_key(b), title_key(c));
        } else if column == 1 {
            lemma_lex_le_transitive(authors_key(a), authors_key(b), authors_key(c));
        }
    } else {
        if column == 0 {
            lemma_lex_le_transitive(title_key(c), title_key(b), title_key(a));
        } else if column == 1 {
            lemma_lex_le_transitive(authors_key(c), authors_key(b), authors_key(a));
        }
    }
}

/// A property of every file of `t` and of `x` holds of every file after
/// the insertion.
proof fn lemma_insert_keeps(t: Seq<StoredView>, x: StoredView, column: i32, ascending: bool, p: spec_fn(StoredView) -> bool)
    requires
        forall|k: int| 0 <= k < t.len() ==> p(#[trigger] t[k]),
        p(x),
    ensures
        forall|k: int| 0 <= k < insert_file(t, x, column, ascending).len() ==> p(#[trigger] insert_file(t, x, column, ascending)[k]),
    decreases t.len(),
{
    if t.len() > 0 && !may_precede(column, ascending, t.last(), x) {
        let u = t.drop_last();
        assert forall|k: int| 0 <= k < u.len() implies p(#[trigger] u[k]) by {
            assert(u[k] == t[k]);
        }
        lemma_insert_keeps(u, x, column, ascending, p);
        let r = insert_file(t, x, column, ascending);
        let w = insert_file(u, x, column, ascending);
        assert forall|k: int| 0 <= k < r.len() implies p(#[trigger] r[k]) by {
            if k < w.len() {
                assert(r[k] == w[k]);
            } else {
                assert(r[k] == t[t.len() - 1]);
            }
        }
    } else if t.len() > 0 {
        let r = insert_file(t, x, column, ascending);
        assert forall|k: int| 0 <= k < r.len() implies p(#[trigger] r[k]) by {
            if k < t.len() {
                assert(r[k] == t[k]);
            }
        }
    }
}

/// Inserting into files in order keeps them in order.
proof fn lemma_insert_in_order(t: Seq<StoredView>, x: StoredView, column: i32, ascending: bool)
    requires
        in_order(t, column, ascending),
    ensures
        in_order(insert_file(t, x, column, ascending), column, ascending),
    decreases t.len(),
{
    let r = insert_file(t, x, column, ascending);
    if t.len() == 0 {
    } else if may_precede(column, ascending, t.last(), x) {
        assert forall|i: int, j: int| 0 <= i < j < r.len() implies may_precede(column, ascending, #[trigger] r[i], #[trigger] r[j]) by {
            if j == t.len() {
                if i < t.len() - 1 {
                    lemma_may_precede_transitive(column, ascending, t[i], t[t.len() - 1], x);
                }
            } else {
                assert(r[i] == t[i] && r[j] == t[j]);
            }
        }
    } else {
        let u = t.drop_last();
        let last = t.last();
        assert(in_order(u, column, ascending)) by {
            assert forall|i: int, j: int| 0 <= i < j < u.len() implies may_precede(column, ascending, #[trigger] u[i], #[trigger] u[j]) by {
                assert(u[i] == t[i] && u[j] == t[j]);
            }
        }
        lemma_insert_in_order(u, x, column, ascending);
        lemma_may_precede_total(column, ascending, last, x);
        let p = |y: StoredView| may_precede(column, ascending, y, last);
        assert forall|k: int| 0 <= k < u.len() implies p(#[trigger] u[k]) by {
            assert(u[k] == t[k]);
        }
        lemma_insert_keeps(u, x, column, ascending, p);
        let w = insert_file(u, x, column, ascending);
        assert forall|i: int, j: int| 0 <= i < j < r.len() implies may_precede(column, ascending, #[trigger] r[i], #[trigger] r[j]) by {
            assert(r[i] == w[i]);
            if j == w.len() {
                assert(p(w[i]));
            } else {
                assert(r[j] == w[j]);
            }
        }
    }
}

/// Inserting adds exactly the inserted file.
proof fn lemma_insert_multiset(t: Seq<StoredView>, x: StoredView, column: i32, ascending: bool)
    ensures
        insert_file(t, x, column, ascending).to_multiset() == t.to_multiset().insert(x),
    decreases t.len(),
{
    broadcast use vstd::seq_lib::group_to_multiset_ensures;

    if t.len() == 0 {
        assert(seq![x] =~= Seq::<StoredView>::empty().push(x));
    } else if may_precede(column, ascending, t.last(), x) {
    } else {
        let u = t.drop_last();
        lemma_insert_multiset(u, x, column, ascending);
        assert(t =~= u.push(t.last()));
        assert(insert_file(t, x, column, ascending).to_multiset() =~= t.to_multiset().insert(x));
    }
}

/// Sorting the file list by a column gives back the same files, each one
/// no later than the files after it in the chosen column and direction.
pub proof fn lemma_sorted_files_ordered_permutation(s: Seq<StoredView>, column: i32, ascending: bool)
    ensures
        in_order(sorted_files(s, column, ascending), column, ascending),
        sorted_files(s, column, ascending).to_multiset() == s.to_multiset(),
    decreases s.len(),
{
    broadcast use vstd::seq_lib::group_to_multiset_ensures;

    if s.len() > 0 {
        let u = s.drop_last();
        lemma_sorted_files_ordered_permutation(u, column, ascending);
        lemma_insert_in_order(sorted_files(u, column, ascending), s.last(), column, ascending);
        lemma_insert_multiset(sorted_files(u, column, ascending), s.last(), column, ascending);
        assert(s =~= u.push(s.last()));
    }
}

} // verus!
