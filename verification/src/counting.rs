//! Counting names: the distinct names of a list in the order they first
//! occur, and how often each occurs.

use vstd::prelude::*;

use crate::text::views;

verus! {

broadcast use vstd::string::group_string_axioms;

/// The distinct elements of a list, in the order they first occur.
pub open spec fn distinct<A>(s: Seq<A>) -> Seq<A>
    decreases s.len(),
{
    if s.len() == 0 {
        Seq::empty()
    } else {
        let d = distinct(s.drop_last());
        if d.contains(s.last()) {
            d
        } else {
            d.push(s.last())
        }
    }
}

/// How often a name occurs in a list.
pub open spec fn occurrences(s: Seq<Seq<char>>, k: Seq<char>) -> nat {
    s.filter(|x: Seq<char>| x == k).len()
}

/// One more element counted.
proof fn lemma_occurrences_step(s: Seq<Seq<char>>, i: int, k: Seq<char>)
    requires
        0 <= i < s.len(),
    ensures
        occurrences(s.take(i + 1), k) == occurrences(s.take(i), k) + if s[i] == k {
            1int
        } else {
            0int
        },
{
    reveal(Seq::filter);
    assert(s.take(i + 1).drop_last() =~= s.take(i));
}

/// A name that is not in a list occurs in it no times.
proof fn lemma_occurrences_absent(s: Seq<Seq<char>>, k: Seq<char>)
    requires
        !s.contains(k),
    ensures
        occurrences(s, k) == 0,
    decreases s.len(),
{
    reveal(Seq::filter);
    if s.len() > 0 {
        assert(!s.drop_last().contains(k)) by {
            if s.drop_last().contains(k) {
                let j = choose|j: int| 0 <= j < s.drop_last().len() && s.drop_last()[j] == k;
                assert(s[j] == k);
            }
        }
        lemma_occurrences_absent(s.drop_last(), k);
        assert(s[s.len() - 1] != k);
    }
}

/// An element occurs in a list exactly when it is among its distinct
/// elements, which have no duplicates.
pub proof fn lemma_distinct_contains<A>(s: Seq<A>, k: A)
    ensures
        distinct(s).contains(k) <==> s.contains(k),
        distinct(s).no_duplicates(),
    decreases s.len(),
{
    if s.len() > 0 {
        lemma_distinct_contains(s.drop_last(), k);
        lemma_distinct_contains(s.drop_last(), s.last());
        let d = distinct(s.drop_last());
        if s.drop_last().contains(k) {
            let j = choose|j: int| 0 <= j < s.drop_last().len() && s.drop_last()[j] == k;
            assert(s[j] == k);
        }
        if s.contains(k) {
            let j = choose|j: int| 0 <= j < s.len() && s[j] == k;
            if j < s.len() - 1 {
                assert(s.drop_last()[j] == k);
            }
        }
        if !d.contains(s.last()) {
            if d.push(s.last()).contains(k) {
                let j = choose|j: int| 0 <= j < d.push(s.last()).len() && d.push(s.last())[j] == k;
                if j < d.len() {
                    assert(d[j] == k);
                }
            }
            if d.contains(k) {
                let j = choose|j: int| 0 <= j < d.len() && d[j] == k;
                assert(d.push(s.last())[j] == k);
            }
            assert(d.push(s.last())[d.len() as int] == s.last());
        }
    } else {
        assert(s.len() == 0);
    }
}

/// The distinct names of a list with how often each occurs, in the order
/// the names first occur.
pub fn tally(keys: &Vec<String>) -> (r: Vec<(String, usize)>)
    ensures
        r@.len() == distinct(views(keys@)).len(),
        forall|i: int|
            0 <= i < r@.len() ==> #[trigger] r@[i].0@ == distinct(views(keys@))[i] && r@[i].1
                == occurrences(views(keys@), r@[i].0@),
{
    let ghost all = views(keys@);
    let mut r: Vec<(String, usize)> = Vec::new();
    let mut i: usize = 0;
    while i < keys.len()
        invariant
            i <= keys.len(),
            all == views(keys@),
            r@.len() == distinct(all.take(i as int)).len(),
            forall|j: int|
                0 <= j < r@.len() ==> #[trigger] r@[j].0@ == distinct(all.take(i as int))[j] && r@[j].1
                    == occurrences(all.take(i as int), r@[j].0@) && r@[j].1 <= i,
        decreases keys.len() - i,
    {
        let ghost t = all.take(i as int);
        let ghost t1 = all.take(i + 1);
        assert(t1.drop_last() =~= t);
        assert(t1.last() == keys@[i as int]@);
        proof {
            lemma_distinct_contains(t, keys@[i as int]@);
        }
        let mut j: usize = 0;
        let mut found = false;
        while j < r.len() && !found
            invariant
                i < keys@.len(),
                j <= r@.len(),
                forall|q: int| 0 <= q < j ==> r@[q].0@ != keys@[i as int]@,
                found ==> j < r@.len() && r@[j as int].0@ == keys@[i as int]@,
            decreases r@.len() - j + (if found {
                0int
            } else {
                1int
            }),
        {
            if r[j].0 == keys[i] {
                found = true;
            } else {
                j += 1;
            }
        }
        proof {
            assert forall|q: int| 0 <= q < r@.len() implies occurrences(t1, r@[q].0@) == occurrences(t, r@[q].0@) + if keys@[i as int]@ == r@[q].0@ {
                1int
            } else {
                0int
            } by {
                lemma_occurrences_step(all, i as int, r@[q].0@);
            }
        }
        if found {
            let (name, count) = r.remove(j);
            r.insert(j, (name, count + 1));
            proof {
                assert(distinct(t).contains(keys@[i as int]@)) by {
                    assert(distinct(t)[j as int] == keys@[i as int]@);
                }
                lemma_distinct_contains(t, keys@[i as int]@);
                assert(distinct(t1) == distinct(t));
                assert forall|q: int| 0 <= q < r@.len() && q != j implies r@[q].0@ != keys@[i as int]@ by {
                    lemma_distinct_contains(t, keys@[i as int]@);
                    assert(distinct(t).no_duplicates());
                    assert(distinct(t)[q] == r@[q].0@);
                    assert(distinct(t)[j as int] == keys@[i as int]@);
                }
            }
        } else {
            let ghost old_r = r@;
            r.push((keys[i].clone(), 1));
            proof {
                assert(!distinct(t).contains(keys@[i as int]@)) by {
                    if distinct(t).contains(keys@[i as int]@) {
                        let q = choose|q: int| 0 <= q < distinct(t).len() && distinct(t)[q] == keys@[i as int]@;
                        assert(old_r[q].0@ == keys@[i as int]@);
                    }
                }
                assert(distinct(t1) == distinct(t).push(keys@[i as int]@));
                lemma_occurrences_step(all, i as int, keys@[i as int]@);
                assert(!t.contains(keys@[i as int]@));
                lemma_occurrences_absent(t, keys@[i as int]@);
            }
        }
        i += 1;
    }
    assert(all.take(keys.len() as int) =~= all);
    r
}

} // verus!
