//! The desktop window's category tree built level by level: each file adds
//! its category path to a hierarchy of parent and child names, and the tree
//! shows, under "All Files", every category's children in order of name,
//! each with its icon and file count, opening the categories that have
//! children of their own.

use vstd::prelude::*;

use crate::counting::occurrences;
use crate::library::{lemma_lex_le_antisymmetric, lex_lt, sorted_distinct, strictly_sorted, StoredFile};
use crate::text::{decimal, push_decimal, push_str, str_eq, views};
use crate::tree::{all_files_label, count_keys, count_keys_exec};

verus! {

broadcast use vstd::string::group_string_axioms;

// ---------------------------------------------------------------------------
// The hierarchy
// ---------------------------------------------------------------------------

/// The path of a child category: the child's name at the top, otherwise
/// the parent's path, "/" and the name.
pub open spec fn child_path(parent: Seq<char>, child: Seq<char>) -> Seq<char> {
    if parent.len() == 0 {
        child
    } else {
        parent + "/"@ + child
    }
}

/// The parent and child links a file adds: its first level under the top,
/// its second level under the first, and its third under the first two.
pub open spec fn file_links(f: StoredFile) -> Seq<(Seq<char>, Seq<char>)> {
    let c1 = f.category1@;
    match f.category2 {
        None => seq![(Seq::<char>::empty(), c1)],
        Some(c2) => match f.category3 {
            None => seq![(Seq::<char>::empty(), c1), (c1, c2@)],
            Some(c3) => seq![(Seq::<char>::empty(), c1), (c1, c2@), (c1 + "/"@ + c2@, c3@)],
        },
    }
}

/// The links of all files, in order.
pub open spec fn links(fs: Seq<StoredFile>) -> Seq<(Seq<char>, Seq<char>)>
    decreases fs.len(),
{
    if fs.len() == 0 {
        Seq::empty()
    } else {
        links(fs.drop_last()) + file_links(fs.last())
    }
}

/// The names of the children of a path.
pub open spec fn children_set(l: Seq<(Seq<char>, Seq<char>)>, p: Seq<char>) -> Set<Seq<char>> {
    Set::new(|c: Seq<char>| l.contains((p, c)))
}

/// Whether a path has children.
pub open spec fn has_sub(l: Seq<(Seq<char>, Seq<char>)>, p: Seq<char>) -> bool {
    exists|c: Seq<char>| l.contains((p, c))
}

/// The children of a path in order of name.
pub open spec fn sorted_children(l: Seq<(Seq<char>, Seq<char>)>, p: Seq<char>) -> Seq<Seq<char>> {
    choose|s: Seq<Seq<char>>| strictly_sorted(s) && s.to_set() == children_set(l, p)
}

/// The length of the longest parent path among the links.
pub open spec fn max_parent(l: Seq<(Seq<char>, Seq<char>)>) -> nat
    decreases l.len(),
{
    if l.len() == 0 {
        0
    } else {
        let m = max_parent(l.drop_last());
        if l.last().0.len() > m {
            l.last().0.len()
        } else {
            m
        }
    }
}

/// The tree line of a child: its icon ("📂" when it has children of its
/// own, "📄" otherwise), name and file count, under its parent's path.
pub open spec fn node_line(l: Seq<(Seq<char>, Seq<char>)>, k: Seq<Seq<char>>, p: Seq<char>, c: Seq<char>) -> Seq<char> {
    let full = child_path(p, c);
    let label = (if has_sub(l, full) {
        "📂"@
    } else {
        "📄"@
    }) + " "@ + c + " ("@ + decimal(occurrences(k, full)) + ")"@;
    if p.len() == 0 {
        label
    } else {
        p + "/"@ + label
    }
}

/// The lines of a child and, when it has children, of its subtree.
pub open spec fn block(l: Seq<(Seq<char>, Seq<char>)>, k: Seq<Seq<char>>, p: Seq<char>, c: Seq<char>) -> Seq<Seq<char>>
    decreases max_parent(l) + 1 - p.len(), 0int,
{
    let full = child_path(p, c);
    seq![node_line(l, k, p, c)] + if has_sub(l, full) && p.len() < full.len() && full.len() <= max_parent(l) {
        kid_lines(l, k, full, sorted_children(l, full))
    } else {
        Seq::empty()
    }
}

/// The lines of the given children of a path, one block after another.
pub open spec fn kid_lines(l: Seq<(Seq<char>, Seq<char>)>, k: Seq<Seq<char>>, p: Seq<char>, kids: Seq<Seq<char>>) -> Seq<Seq<char>>
    decreases max_parent(l) + 1 - p.len(), kids.len() + 1,
{
    if kids.len() == 0 {
        Seq::empty()
    } else {
        block(l, k, p, kids[0]) + kid_lines(l, k, p, kids.drop_first())
    }
}

/// The whole tree: "All Files" with the number of files, then the top
/// categories' blocks.
pub open spec fn hierarchy_lines(fs: Seq<StoredFile>) -> Seq<Seq<char>> {
    let l = links(fs);
    seq!["📁 All Files ("@ + decimal(fs.len()) + ")"@] + kid_lines(
        l,
        count_keys(fs),
        Seq::empty(),
        sorted_children(l, Seq::empty()),
    )
}

// ---------------------------------------------------------------------------
// Facts
// ---------------------------------------------------------------------------

/// Two lists in strict order of name with the same names are the same.
proof fn lemma_sorted_unique(a: Seq<Seq<char>>, b: Seq<Seq<char>>)
    requires
        strictly_sorted(a),
        strictly_sorted(b),
        a.to_set() == b.to_set(),
    ensures
        a == b,
    decreases a.len(),
{
    if a.len() == 0 {
        if b.len() > 0 {
            assert(b.to_set().contains(b[0]));
        }
        assert(a =~= b);
    } else {
        assert(a.to_set().contains(a[0]));
        assert(b.to_set().contains(a[0]));
        assert(b.len() > 0);
        assert(b.to_set().contains(b[0]));
        assert(a.to_set().contains(b[0]));
        let i = choose|i: int| 0 <= i < a.len() && a[i] == b[0];
        let j = choose|j: int| 0 <= j < b.len() && b[j] == a[0];
        if a[0] != b[0] {
            assert(i > 0 && j > 0);
            assert(lex_lt(a[0], a[i]));
            assert(lex_lt(b[0], b[j]));
            lemma_lex_le_antisymmetric(a[0], b[0]);
        }
        let a1 = a.drop_first();
        let b1 = b.drop_first();
        assert forall|x: Seq<char>| a1.to_set().contains(x) implies b1.to_set().contains(x) by {
            let p = choose|p: int| 0 <= p < a1.len() && a1[p] == x;
            assert(a[p + 1] == x);
            assert(lex_lt(a[0], a[p + 1]));
            assert(b.to_set().contains(x));
            let q = choose|q: int| 0 <= q < b.len() && b[q] == x;
            assert(q != 0);
            assert(b1[q - 1] == x);
        }
        assert forall|x: Seq<char>| b1.to_set().contains(x) implies a1.to_set().contains(x) by {
            let p = choose|p: int| 0 <= p < b1.len() && b1[p] == x;
            assert(b[p + 1] == x);
            assert(lex_lt(b[0], b[p + 1]));
            assert(a.to_set().contains(x));
            let q = choose|q: int| 0 <= q < a.len() && a[q] == x;
            assert(q != 0);
            assert(a1[q - 1] == x);
        }
        assert(a1.to_set() =~= b1.to_set());
        assert(strictly_sorted(a1));
        assert(strictly_sorted(b1));
        lemma_sorted_unique(a1, b1);
        assert(a =~= seq![a[0]] + a1);
        assert(b =~= seq![b[0]] + b1);
    }
}

/// A path with children is no longer than the longest parent path.
proof fn lemma_parent_bound(l: Seq<(Seq<char>, Seq<char>)>, p: Seq<char>, c: Seq<char>)
    requires
        l.contains((p, c)),
    ensures
        p.len() <= max_parent(l),
    decreases l.len(),
{
    let i = choose|i: int| 0 <= i < l.len() && l[i] == (p, c);
    if i < l.len() - 1 {
        assert(l.drop_last()[i] == (p, c));
        lemma_parent_bound(l.drop_last(), p, c);
    }
}

/// Every top-level child has a name when every file has a first level.
proof fn lemma_top_children_named(fs: Seq<StoredFile>)
    requires
        forall|i: int| 0 <= i < fs.len() ==> #[trigger] fs[i].category1@.len() > 0,
    ensures
        forall|j: int| 0 <= j < links(fs).len() && (#[trigger] links(fs)[j]).0.len() == 0 ==> links(fs)[j].1.len() > 0,
    decreases fs.len(),
{
    if fs.len() > 0 {
        let u = fs.drop_last();
        assert forall|i: int| 0 <= i < u.len() implies #[trigger] u[i].category1@.len() > 0 by {
            assert(u[i] == fs[i]);
        }
        lemma_top_children_named(u);
        let f = fs.last();
        assert(f.category1@.len() > 0);
        reveal_strlit("/");
        let a = links(u);
        let b = file_links(f);
        assert forall|j: int| 0 <= j < links(fs).len() && (#[trigger] links(fs)[j]).0.len() == 0 implies links(fs)[j].1.len() > 0 by {
            if j < a.len() {
                assert(links(fs)[j] == a[j]);
            } else {
                assert(links(fs)[j] == b[j - a.len()]);
            }
        }
    }
}

/// The values of a list of links.
pub open spec fn link_views(v: Seq<(String, String)>) -> Seq<(Seq<char>, Seq<char>)> {
    v.map_values(|x: (String, String)| (x.0@, x.1@))
}

/// The links of all files.
fn links_exec(files: &Vec<StoredFile>) -> (r: Vec<(String, String)>)
    ensures
        link_views(r@) == links(files@),
{
    let mut r: Vec<(String, String)> = Vec::new();
    let mut i: usize = 0;
    while i < files.len()
        invariant
            i <= files.len(),
            link_views(r@) == links(files@.take(i as int)),
        decreases files.len() - i,
    {
        let f = &files[i];
        let ghost before = link_views(r@);
        r.push((String::new(), f.category1.clone()));
        match &f.category2 {
            None => {},
            Some(c2) => {
                r.push((f.category1.clone(), c2.clone()));
                match &f.category3 {
                    None => {},
                    Some(c3) => {
                        let mut p = String::new();
                        push_str(&mut p, f.category1.as_str());
                        push_str(&mut p, "/");
                        push_str(&mut p, c2.as_str());
                        r.push((p, c3.clone()));
                    },
                }
            },
        }
        assert(files@.take(i + 1).drop_last() =~= files@.take(i as int));
        assert(link_views(r@) =~= before + file_links(files@[i as int]));
        i += 1;
    }
    assert(files@.take(files.len() as int) =~= files@);
    r
}

/// The children of a path, in order of name.
fn children_exec(links: &Vec<(String, String)>, p: &str) -> (r: Vec<String>)
    ensures
        strictly_sorted(views(r@)),
        views(r@).to_set() == children_set(link_views(links@), p@),
{
    let ghost l = link_views(links@);
    let mut found: Vec<String> = Vec::new();
    let mut i: usize = 0;
    while i < links.len()
        invariant
            i <= links.len(),
            l == link_views(links@),
            forall|x: Seq<char>| views(found@).contains(x) <==> l.take(i as int).contains((p@, x)),
        decreases links.len() - i,
    {
        let ghost before = views(found@);
        let ghost head = l.take(i as int);
        assert(forall|x: Seq<char>| before.contains(x) <==> head.contains((p@, x)));
        if str_eq(links[i].0.as_str(), p) {
            found.push(links[i].1.clone());
        }
        proof {
            let t = l.take(i + 1);
            assert(t[i as int] == l[i as int]);
            assert forall|x: Seq<char>| views(found@).contains(x) <==> t.contains((p@, x)) by {
                if views(found@).contains(x) {
                    let q = choose|q: int| 0 <= q < views(found@).len() && views(found@)[q] == x;
                    if q < before.len() {
                        assert(before[q] == x);
                        assert(before.contains(x));
                        assert(head.contains((p@, x)));
                        let z = choose|z: int| 0 <= z < head.len() && head[z] == (p@, x);
                        assert(t[z] == (p@, x));
                    } else {
                        assert(t[i as int] == (p@, x));
                    }
                }
                if t.contains((p@, x)) {
                    let z = choose|z: int| 0 <= z < t.len() && t[z] == (p@, x);
                    if z < i {
                        assert(head[z] == (p@, x));
                        assert(head.contains((p@, x)));
                        assert(before.contains(x));
                        let q = choose|q: int| 0 <= q < before.len() && before[q] == x;
                        assert(views(found@)[q] == x);
                    } else {
                        assert(views(found@)[before.len() as int] == x);
                    }
                }
            }
        }
        i += 1;
    }
    assert(l.take(links.len() as int) =~= l);
    let r = sorted_distinct(&found);
    assert(views(r@).to_set() =~= children_set(l, p@)) by {
        assert forall|x: Seq<char>| views(r@).to_set().contains(x) <==> children_set(l, p@).contains(x) by {
            assert(views(found@).to_set().contains(x) <==> views(found@).contains(x));
        }
    }
    r
}

/// Whether a path has children.
fn has_sub_exec(links: &Vec<(String, String)>, p: &str) -> (r: bool)
    ensures
        r == has_sub(link_views(links@), p@),
{
    let ghost l = link_views(links@);
    let mut i: usize = 0;
    while i < links.len()
        invariant
            i <= links.len(),
            l == link_views(links@),
            forall|j: int| 0 <= j < i ==> (#[trigger] l[j]).0 != p@,
        decreases links.len() - i,
    {
        if str_eq(links[i].0.as_str(), p) {
            assert(l.contains((p@, l[i as int].1)));
            return true;
        }
        i += 1;
    }
    assert forall|c: Seq<char>| !l.contains((p@, c)) by {
        if l.contains((p@, c)) {
            let j = choose|j: int| 0 <= j < l.len() && l[j] == (p@, c);
            assert(l[j].0 == p@);
        }
    }
    false
}

/// How often a path occurs among the count keys.
fn count_exec(keys: &Vec<String>, p: &str) -> (r: usize)
    ensures
        r == occurrences(views(keys@), p@),
{
    let ghost k = views(keys@);
    let mut n: usize = 0;
    let mut i: usize = 0;
    while i < keys.len()
        invariant
            i <= keys.len(),
            k == views(keys@),
            n == occurrences(k.take(i as int), p@),
            n <= i,
        decreases keys.len() - i,
    {
        proof {
            reveal(Seq::filter);
            assert(k.take(i + 1).drop_last() =~= k.take(i as int));
        }
        if str_eq(keys[i].as_str(), p) {
            n = n + 1;
        }
        i += 1;
    }
    assert(k.take(keys.len() as int) =~= k);
    n
}

/// Appending a child's block to the blocks of the children before it.
proof fn lemma_kid_lines_push(l: Seq<(Seq<char>, Seq<char>)>, k: Seq<Seq<char>>, p: Seq<char>, s: Seq<Seq<char>>, x: Seq<char>)
    ensures
        kid_lines(l, k, p, s.push(x)) == kid_lines(l, k, p, s) + block(l, k, p, x),
    decreases s.len(),
{
    if s.len() == 0 {
        assert(s.push(x).drop_first() =~= Seq::<Seq<char>>::empty());
        assert(kid_lines(l, k, p, s.push(x).drop_first()) == Seq::<Seq<char>>::empty());
    } else {
        assert(s.push(x).drop_first() =~= s.drop_first().push(x));
        lemma_kid_lines_push(l, k, p, s.drop_first(), x);
    }
}

/// Appends the blocks of a path's children to the lines.
fn push_subtree(links: &Vec<(String, String)>, keys: &Vec<String>, p: &String, out: &mut Vec<String>)
    requires
        forall|j: int|
            0 <= j < link_views(links@).len() && (#[trigger] link_views(links@)[j]).0.len() == 0 ==> link_views(
                links@,
            )[j].1.len() > 0,
        p@.len() <= max_parent(link_views(links@)) + 1,
    ensures
        views(final(out)@) == views(old(out)@) + kid_lines(
            link_views(links@),
            views(keys@),
            p@,
            sorted_children(link_views(links@), p@),
        ),
    decreases max_parent(link_views(links@)) + 1 - p@.len(),
{
    let ghost l = link_views(links@);
    let ghost k = views(keys@);
    let kids = children_exec(links, p.as_str());
    let ghost ks = views(kids@);
    proof {
        assert(strictly_sorted(ks) && ks.to_set() == children_set(l, p@));
        let c = sorted_children(l, p@);
        lemma_sorted_unique(c, ks);
    }
    let ghost base = views(out@);
    assert(ks.take(0) =~= Seq::<Seq<char>>::empty());
    assert(base + kid_lines(l, k, p@, ks.take(0)) =~= base);
    let mut i: usize = 0;
    while i < kids.len()
        invariant
            i <= kids.len(),
            l == link_views(links@),
            k == views(keys@),
            ks == views(kids@),
            ks == sorted_children(l, p@),
            ks.to_set() == children_set(l, p@),
            forall|j: int| 0 <= j < l.len() && (#[trigger] l[j]).0.len() == 0 ==> l[j].1.len() > 0,
            p@.len() <= max_parent(l) + 1,
            views(out@) == base + kid_lines(l, k, p@, ks.take(i as int)),
        decreases kids.len() - i,
    {
        let c = &kids[i];
        assert(ks[i as int] == c@);
        let mut full = String::new();
        if p.as_str().is_empty() {
            push_str(&mut full, c.as_str());
        } else {
            push_str(&mut full, p.as_str());
            push_str(&mut full, "/");
            push_str(&mut full, c.as_str());
        }
        assert(full@ == child_path(p@, c@));
        let sub = has_sub_exec(links, full.as_str());
        let count = count_exec(keys, full.as_str());
        let mut line = String::new();
        if !p.as_str().is_empty() {
            push_str(&mut line, p.as_str());
            push_str(&mut line, "/");
        }
        push_str(
            &mut line,
            if sub {
                "📂"
            } else {
                "📄"
            },
        );
        push_str(&mut line, " ");
        push_str(&mut line, c.as_str());
        push_str(&mut line, " (");
        push_decimal(&mut line, count as u64);
        push_str(&mut line, ")");
        assert(line@ == node_line(l, k, p@, c@));
        let ghost mid = views(out@);
        out.push(line);
        assert(views(out@) =~= mid + seq![node_line(l, k, p@, c@)]);
        if sub {
            proof {
                let w = choose|w: Seq<char>| l.contains((full@, w));
                lemma_parent_bound(l, full@, w);
                if p@.len() == 0 {
                    assert(ks.contains(c@));
                    assert(ks.to_set().contains(c@));
                    assert(children_set(l, p@).contains(c@));
                    assert(l.contains((p@, c@)));
                    let j = choose|j: int| 0 <= j < l.len() && l[j] == (p@, c@);
                    assert(l[j].0.len() == 0);
                    assert(c@.len() > 0);
                } else {
                    reveal_strlit("/");
                }
                assert(p@.len() < full@.len());
                assert(full@.len() <= max_parent(l));
            }
            let ghost before_sub = views(out@);
            push_subtree(links, keys, &full, out);
            assert(views(out@) == before_sub + kid_lines(l, k, full@, sorted_children(l, full@)));
        }
        proof {
            assert(block(l, k, p@, c@) == seq![node_line(l, k, p@, c@)] + if sub {
                kid_lines(l, k, full@, sorted_children(l, full@))
            } else {
                Seq::<Seq<char>>::empty()
            });
            lemma_kid_lines_push(l, k, p@, ks.take(i as int), ks[i as int]);
            assert(ks.take(i + 1) =~= ks.take(i as int).push(ks[i as int]));
            assert(views(out@) =~= base + kid_lines(l, k, p@, ks.take(i + 1)));
        }
        i += 1;
    }
    assert(ks.take(kids.len() as int) =~= ks);
}

/// The lines of the category tree for the files: "All Files" with their
/// number, then each top category's block in order of name. Every file must
/// have a first level (a nameless top category would open into itself
/// without end).
pub fn hierarchy_tree(files: &Vec<StoredFile>) -> (r: Vec<String>)
    requires
        forall|i: int| 0 <= i < files@.len() ==> #[trigger] files@[i].category1@.len() > 0,
    ensures
        views(r@) == hierarchy_lines(files@),
{
    let links = links_exec(files);
    let keys = count_keys_exec(files);
    proof {
        lemma_top_children_named(files@);
    }
    let mut r: Vec<String> = Vec::new();
    r.push(all_files_label(files.len()));
    let root = String::new();
    push_subtree(&links, &keys, &root, &mut r);
    r
}

} // verus!
