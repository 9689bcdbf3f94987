//! Character-level text handling shared by the rest of the library:
//! whitespace trimming, splitting on separators, line splitting, substring
//! search and decimal numbers, each stated over `Seq<char>`.

use vstd::prelude::*;

verus! {

broadcast use vstd::string::group_string_axioms;

// ---------------------------------------------------------------------------
// Conversions between `str`/`String` and character vectors
// ---------------------------------------------------------------------------

/// The characters of `s`, in order.
pub fn chars_of(s: &str) -> (r: Vec<char>)
    ensures
        r@ == s@,
{
    let mut r: Vec<char> = Vec::new();
    for c in it: s.chars()
        invariant
            r@ == it.seq().take(it.index() as int),
            it.seq() == s@,
    {
        r.push(c);
    }
    r
}

/// `String::push`: appends one character to the string.
#[verifier::external_body]
pub(crate) fn push_char(s: &mut String, c: char)
    ensures
        final(s)@ == old(s)@.push(c),
{
    s.push(c);
}

/// Appends every character of `t` to `s`.
pub fn push_str(s: &mut String, t: &str)
    ensures
        final(s)@ == old(s)@ + t@,
{
    let cs = chars_of(t);
    push_chars(s, &cs);
}

/// Appends the given characters to `s`.
pub fn push_chars(s: &mut String, cs: &Vec<char>)
    ensures
        final(s)@ == old(s)@ + cs@,
{
    let ghost start = s@;
    let mut i: usize = 0;
    while i < cs.len()
        invariant
            i <= cs.len(),
            s@ == start + cs@.take(i as int),
        decreases cs.len() - i,
    {
        push_char(s, cs[i]);
        assert(cs@.take(i + 1) =~= cs@.take(i as int).push(cs@[i as int]));
        i += 1;
    }
    assert(cs@.take(cs.len() as int) =~= cs@);
}

/// A `String` holding exactly the given characters.
pub fn string_of(cs: &Vec<char>) -> (r: String)
    ensures
        r@ == cs@,
{
    let mut r = String::new();
    push_chars(&mut r, cs);
    r
}

/// The views of a sequence of strings.
pub open spec fn views(v: Seq<String>) -> Seq<Seq<char>> {
    v.map_values(|s: String| s@)
}

/// The views of a sequence of character vectors.
pub open spec fn char_views(v: Seq<Vec<char>>) -> Seq<Seq<char>> {
    v.map_values(|s: Vec<char>| s@)
}

// ---------------------------------------------------------------------------
// Whitespace and trimming
// ---------------------------------------------------------------------------

/// Unicode `White_Space`, the property that `char::is_whitespace` and
/// `str::trim` go by.
pub open spec fn is_ws(c: char) -> bool {
    let v = c as u32;
    ||| (0x9 <= v && v <= 0xd)
    ||| v == 0x20
    ||| v == 0x85
    ||| v == 0xa0
    ||| v == 0x1680
    ||| (0x2000 <= v && v <= 0x200a)
    ||| v == 0x2028
    ||| v == 0x2029
    ||| v == 0x202f
    ||| v == 0x205f
    ||| v == 0x3000
}

/// Whether `c` is white space.
pub fn is_whitespace(c: char) -> (b: bool)
    ensures
        b == is_ws(c),
{
    let v = c as u32;
    (0x9 <= v && v <= 0xd) || v == 0x20 || v == 0x85 || v == 0xa0 || v == 0x1680 || (0x2000 <= v
        && v <= 0x200a) || v == 0x2028 || v == 0x2029 || v == 0x202f || v == 0x205f || v == 0x3000
}

/// `s` without its leading white space.
pub open spec fn trim_start(s: Seq<char>) -> Seq<char>
    decreases s.len(),
{
    if s.len() > 0 && is_ws(s[0]) {
        trim_start(s.drop_first())
    } else {
        s
    }
}

/// `s` without its trailing white space.
pub open spec fn trim_end(s: Seq<char>) -> Seq<char>
    decreases s.len(),
{
    if s.len() > 0 && is_ws(s.last()) {
        trim_end(s.drop_last())
    } else {
        s
    }
}

/// `s` without leading and trailing white space (`str::trim`).
pub open spec fn trim(s: Seq<char>) -> Seq<char> {
    trim_end(trim_start(s))
}

/// Whether `s` holds nothing but white space (so `trim(s)` is empty).
pub open spec fn is_blank(s: Seq<char>) -> bool {
    trim(s).len() == 0
}

/// The trimmed characters of `s`.
pub fn trim_chars(s: &Vec<char>) -> (r: Vec<char>)
    ensures
        r@ == trim(s@),
{
    let n = s.len();
    let mut lo: usize = 0;
    assert(s@.subrange(0, n as int) =~= s@);
    while lo < n && is_whitespace(s[lo])
        invariant
            lo <= n,
            n == s@.len(),
            trim_start(s@) == trim_start(s@.subrange(lo as int, n as int)),
        decreases n - lo,
    {
        assert(s@.subrange(lo as int, n as int).drop_first() =~= s@.subrange(lo + 1, n as int));
        lo += 1;
    }
    assert(trim_start(s@) == s@.subrange(lo as int, n as int));
    let mut hi: usize = n;
    while hi > lo && is_whitespace(s[hi - 1])
        invariant
            lo <= hi <= n,
            n == s@.len(),
            trim(s@) == trim_end(s@.subrange(lo as int, hi as int)),
        decreases hi - lo,
    {
        assert(s@.subrange(lo as int, hi as int).drop_last() =~= s@.subrange(lo as int, hi - 1));
        hi -= 1;
    }
    let mut r: Vec<char> = Vec::new();
    let mut i = lo;
    while i < hi
        invariant
            lo <= i <= hi <= n,
            n == s@.len(),
            r@ == s@.subrange(lo as int, i as int),
        decreases hi - i,
    {
        r.push(s[i]);
        assert(s@.subrange(lo as int, i + 1) =~= s@.subrange(lo as int, i as int).push(s@[i as int]));
        i += 1;
    }
    r
}

/// `str::trim` on a string.
pub fn trim_str(s: &str) -> (r: String)
    ensures
        r@ == trim(s@),
{
    let cs = chars_of(s);
    let t = trim_chars(&cs);
    string_of(&t)
}

/// Whether a string is empty after trimming.
pub fn blank(s: &str) -> (b: bool)
    ensures
        b == is_blank(s@),
{
    let cs = chars_of(s);
    let t = trim_chars(&cs);
    t.len() == 0
}

/// Trimming twice is trimming once.
pub proof fn lemma_trim_idempotent(s: Seq<char>)
    ensures
        trim(trim(s)) == trim(s),
{
    lemma_trim_start_shape(s);
    lemma_trim_end_shape(trim_start(s));
    let t = trim(s);
    lemma_trim_start_shape(t);
    lemma_trim_end_shape(trim_start(t));
}

/// The outcome of `trim_start` is empty or starts with a non-space.
proof fn lemma_trim_start_shape(s: Seq<char>)
    ensures
        trim_start(s).len() > 0 ==> !is_ws(trim_start(s)[0]),
        trim_start(s).len() <= s.len(),
        trim_start(s) == s.subrange(s.len() - trim_start(s).len(), s.len() as int),
    decreases s.len(),
{
    if s.len() > 0 && is_ws(s[0]) {
        lemma_trim_start_shape(s.drop_first());
        assert(s.drop_first().subrange(
            s.drop_first().len() - trim_start(s).len(),
            s.drop_first().len() as int,
        ) =~= s.subrange(s.len() - trim_start(s).len(), s.len() as int));
    } else {
        assert(s.subrange(0, s.len() as int) =~= s);
    }
}

/// The outcome of `trim_end` is empty or ends with a non-space, and it is
/// a prefix of its argument.
proof fn lemma_trim_end_shape(s: Seq<char>)
    ensures
        trim_end(s).len() > 0 ==> !is_ws(trim_end(s).last()),
        trim_end(s).len() <= s.len(),
        trim_end(s) == s.take(trim_end(s).len() as int),
        s.len() > 0 && !is_ws(s[0]) ==> trim_end(s).len() > 0,
    decreases s.len(),
{
    if s.len() > 0 && is_ws(s.last()) {
        lemma_trim_end_shape(s.drop_last());
        assert(s.drop_last().take(trim_end(s).len() as int) =~= s.take(trim_end(s).len() as int));
    } else {
        assert(s.take(s.len() as int) =~= s);
    }
}

// ---------------------------------------------------------------------------
// Splitting
// ---------------------------------------------------------------------------

/// The pieces of `s` between separators (`str::split` with a set of
/// separator characters): one more piece than separators, empty pieces
/// included.
pub open spec fn split_on(s: Seq<char>, seps: Seq<char>) -> Seq<Seq<char>>
    decreases s.len(),
{
    if s.len() == 0 {
        seq![Seq::<char>::empty()]
    } else {
        let p = split_on(s.drop_last(), seps);
        if seps.contains(s.last()) {
            p.push(Seq::<char>::empty())
        } else {
            p.update(p.len() - 1, p.last().push(s.last()))
        }
    }
}

/// `split_on` always yields at least one piece.
pub proof fn lemma_split_nonempty(s: Seq<char>, seps: Seq<char>)
    ensures
        split_on(s, seps).len() >= 1,
    decreases s.len(),
{
    if s.len() > 0 {
        lemma_split_nonempty(s.drop_last(), seps);
    }
}

/// Whether `c` is one of `seps`.
fn is_sep(c: char, seps: &Vec<char>) -> (b: bool)
    ensures
        b == seps@.contains(c),
{
    let mut i: usize = 0;
    while i < seps.len()
        invariant
            i <= seps.len(),
            forall|j: int| 0 <= j < i ==> seps@[j] != c,
        decreases seps.len() - i,
    {
        if seps[i] == c {
            return true;
        }
        i += 1;
    }
    false
}

/// The pieces of `s` between separator characters.
pub fn split_chars(s: &Vec<char>, seps: &Vec<char>) -> (r: Vec<Vec<char>>)
    ensures
        char_views(r@) == split_on(s@, seps@),
{
    let mut pieces: Vec<Vec<char>> = Vec::new();
    let mut cur: Vec<char> = Vec::new();
    let mut i: usize = 0;
    while i < s.len()
        invariant
            i <= s.len(),
            char_views(pieces@).push(cur@) == split_on(s@.take(i as int), seps@),
        decreases s.len() - i,
    {
        let c = s[i];
        let ghost before = s@.take(i as int);
        assert(s@.take(i + 1).drop_last() =~= before);
        assert(s@.take(i + 1).last() == c);
        if is_sep(c, seps) {
            let done = cur;
            pieces.push(done);
            cur = Vec::new();
            assert(char_views(pieces@) =~= char_views(pieces@).drop_last().push(done@));
            assert(char_views(pieces@).push(cur@) =~= split_on(s@.take(i + 1), seps@));
        } else {
            let ghost p = split_on(before, seps@);
            cur.push(c);
            assert(char_views(pieces@).push(cur@) =~= p.update(p.len() - 1, p.last().push(c)));
        }
        i += 1;
    }
    assert(s@.take(s.len() as int) =~= s@);
    pieces.push(cur);
    assert(char_views(pieces@) =~= split_on(s@, seps@));
    pieces
}

/// The trimmed, non-empty pieces among `ps`, in order.
pub open spec fn clean_items(ps: Seq<Seq<char>>) -> Seq<Seq<char>>
    decreases ps.len(),
{
    if ps.len() == 0 {
        Seq::empty()
    } else {
        let rest = clean_items(ps.drop_last());
        let t = trim(ps.last());
        if t.len() == 0 {
            rest
        } else {
            rest.push(t)
        }
    }
}

/// The items of a separated list: `s.split(seps).map(trim).filter(non-empty)`.
pub open spec fn list_items(s: Seq<char>, seps: Seq<char>) -> Seq<Seq<char>> {
    clean_items(split_on(s, seps))
}

/// The items of a separated list, each trimmed, empty ones dropped.
pub fn split_list(s: &str, seps: &Vec<char>) -> (r: Vec<String>)
    ensures
        views(r@) == list_items(s@, seps@),
{
    let cs = chars_of(s);
    let pieces = split_chars(&cs, seps);
    let mut out: Vec<String> = Vec::new();
    let mut i: usize = 0;
    while i < pieces.len()
        invariant
            i <= pieces.len(),
            char_views(pieces@) == split_on(s@, seps@),
            views(out@) == clean_items(char_views(pieces@).take(i as int)),
        decreases pieces.len() - i,
    {
        let t = trim_chars(&pieces[i]);
        let ghost ps = char_views(pieces@);
        assert(ps.take(i + 1).drop_last() =~= ps.take(i as int));
        assert(ps.take(i + 1).last() == pieces@[i as int]@);
        if t.len() > 0 {
            let item = string_of(&t);
            out.push(item);
            assert(views(out@) =~= clean_items(ps.take(i as int)).push(t@));
        }
        i += 1;
    }
    assert(char_views(pieces@).take(pieces.len() as int) =~= char_views(pieces@));
    out
}

/// The items of a comma-separated list, each trimmed, empty ones dropped.
pub fn comma_list(s: &str) -> (r: Vec<String>)
    ensures
        views(r@) == list_items(s@, seq![',']),
{
    let seps = vec![','];
    assert(seps@ =~= seq![',']);
    split_list(s, &seps)
}

/// Every item of a separated list is trimmed and non-empty.
pub proof fn lemma_list_items_clean(s: Seq<char>, seps: Seq<char>)
    ensures
        forall|i: int|
            0 <= i < list_items(s, seps).len() ==> #[trigger] list_items(s, seps)[i].len() > 0
                && trim(list_items(s, seps)[i]) == list_items(s, seps)[i],
{
    lemma_clean_items_clean(split_on(s, seps));
}

proof fn lemma_clean_items_clean(ps: Seq<Seq<char>>)
    ensures
        forall|i: int|
            0 <= i < clean_items(ps).len() ==> #[trigger] clean_items(ps)[i].len() > 0 && trim(
                clean_items(ps)[i],
            ) == clean_items(ps)[i],
    decreases ps.len(),
{
    if ps.len() > 0 {
        lemma_clean_items_clean(ps.drop_last());
        lemma_trim_idempotent(ps.last());
        let rest = clean_items(ps.drop_last());
        let c = clean_items(ps);
        assert forall|i: int| 0 <= i < c.len() implies #[trigger] c[i].len() > 0 && trim(c[i])
            == c[i] by {
            if i < rest.len() {
                assert(c[i] == rest[i]);
            }
        }
    }
}

// ---------------------------------------------------------------------------
// Case
// ---------------------------------------------------------------------------

/// What `str::to_lowercase` gives for a string (Unicode lower-casing).
pub uninterp spec fn lowercase(s: Seq<char>) -> Seq<char>;

/// Whether every character of `s` is ASCII.
pub open spec fn all_ascii(s: Seq<char>) -> bool {
    forall|i: int| 0 <= i < s.len() ==> (#[trigger] s[i] as u32) < 128
}

/// The ASCII lower case of a character: `A` to `Z` become `a` to `z`,
/// every other character stays.
pub open spec fn ascii_lower_char(c: char) -> char {
    if 'A' as u32 <= c as u32 && c as u32 <= 'Z' as u32 {
        ((c as u32) + 32) as char
    } else {
        c
    }
}

/// The ASCII lower case of a string.
pub open spec fn ascii_lower(s: Seq<char>) -> Seq<char> {
    s.map_values(|c: char| ascii_lower_char(c))
}

/// `str::to_lowercase`. The result is the Unicode lower case of the
/// argument and depends on the argument alone; on ASCII text it is the
/// ASCII lower case (`A` to `Z` become `a` to `z`, nothing else changes).
/// Beyond ASCII the Unicode mapping is not restated here.
#[verifier::external_body]
pub(crate) fn to_lowercase(s: &str) -> (r: String)
    ensures
        r@ == lowercase(s@),
        all_ascii(s@) ==> r@ == ascii_lower(s@),
{
    s.to_lowercase()
}

// ---------------------------------------------------------------------------
// Lines
// ---------------------------------------------------------------------------

/// A line without the carriage return of a `\r\n` ending.
pub open spec fn strip_cr(l: Seq<char>) -> Seq<char> {
    if l.len() > 0 && l.last() == '\r' {
        l.drop_last()
    } else {
        l
    }
}

/// The lines of `s` as `str::lines` yields them: split at `\n`, a `\r`
/// before a `\n` removed, and no empty line after a final `\n`.
pub open spec fn lines_of(s: Seq<char>) -> Seq<Seq<char>> {
    let p = split_on(s, seq!['\n']);
    let done = p.drop_last().map_values(|l: Seq<char>| strip_cr(l));
    if p.last().len() == 0 {
        done
    } else {
        done.push(p.last())
    }
}

fn strip_cr_chars(l: Vec<char>) -> (r: Vec<char>)
    ensures
        r@ == strip_cr(l@),
{
    let mut l = l;
    if l.len() > 0 && l[l.len() - 1] == '\r' {
        l.pop();
    }
    l
}

/// The lines of `s` (`str::lines`).
pub fn lines(s: &Vec<char>) -> (r: Vec<Vec<char>>)
    ensures
        char_views(r@) == lines_of(s@),
{
    let seps = vec!['\n'];
    assert(seps@ =~= seq!['\n']);
    let mut pieces = split_chars(s, &seps);
    proof {
        lemma_split_nonempty(s@, seq!['\n']);
    }
    let ghost p = split_on(s@, seq!['\n']);
    let last = pieces.pop().unwrap();
    assert(char_views(pieces@) =~= p.drop_last());
    let mut out: Vec<Vec<char>> = Vec::new();
    let mut i: usize = 0;
    while i < pieces.len()
        invariant
            i <= pieces.len(),
            p.len() >= 1,
            char_views(pieces@) == p.drop_last(),
            out@.len() == i,
            forall|k: int| 0 <= k < i ==> #[trigger] out@[k]@ == strip_cr(pieces@[k]@),
        decreases pieces.len() - i,
    {
        let l = strip_cr_chars(pieces[i].clone());
        out.push(l);
        i += 1;
    }
    assert forall|k: int| 0 <= k < p.drop_last().len() implies #[trigger] char_views(out@)[k]
        == p.drop_last().map_values(|l: Seq<char>| strip_cr(l))[k] by {
        assert(char_views(pieces@)[k] == pieces@[k]@);
    }
    assert(char_views(out@) =~= p.drop_last().map_values(|l: Seq<char>| strip_cr(l)));
    if last.len() > 0 {
        out.push(last);
        assert(char_views(out@) =~= lines_of(s@));
    }
    out
}

// ---------------------------------------------------------------------------
// Substrings
// ---------------------------------------------------------------------------

/// Whether `t` occurs in `s` (`str::contains`).
pub open spec fn has_sub(s: Seq<char>, t: Seq<char>) -> bool {
    exists|i: int| 0 <= i && i + t.len() <= s.len() && #[trigger] s.subrange(i, i + t.len()) == t
}

/// Whether `p` is a prefix of `s` (`str::starts_with`).
pub open spec fn has_prefix(s: Seq<char>, p: Seq<char>) -> bool {
    p.len() <= s.len() && s.take(p.len() as int) == p
}

/// Whether `t` occurs in `s` starting at `i`.
fn occurs_at(s: &Vec<char>, t: &Vec<char>, i: usize) -> (b: bool)
    requires
        i + t.len() <= s.len(),
    ensures
        b == (s@.subrange(i as int, i + t.len()) == t@),
{
    let mut j: usize = 0;
    while j < t.len()
        invariant
            j <= t.len(),
            i + t.len() <= s.len(),
            forall|k: int| 0 <= k < j ==> s@[i + k] == t@[k],
        decreases t.len() - j,
    {
        if s[i + j] != t[j] {
            assert(s@.subrange(i as int, i + t.len())[j as int] != t@[j as int]);
            return false;
        }
        j += 1;
    }
    assert(s@.subrange(i as int, i + t.len()) =~= t@);
    true
}

/// Whether `t` occurs in `s`.
pub fn contains_chars(s: &Vec<char>, t: &Vec<char>) -> (b: bool)
    ensures
        b == has_sub(s@, t@),
{
    if t.len() > s.len() {
        return false;
    }
    let m = s.len() - t.len();
    let mut i: usize = 0;
    loop
        invariant
            t.len() <= s.len(),
            m == s.len() - t.len(),
            i <= m,
            forall|k: int| 0 <= k < i ==> #[trigger] s@.subrange(k, k + t.len()) != t@,
        decreases m - i,
    {
        if occurs_at(s, t, i) {
            return true;
        }
        if i == m {
            return false;
        }
        i += 1;
    }
}

/// Whether `s` is among `v`.
pub fn has_text(v: &Vec<String>, s: &String) -> (r: bool)
    ensures
        r == views(v@).contains(s@),
{
    let mut i: usize = 0;
    while i < v.len()
        invariant
            i <= v.len(),
            forall|j: int| 0 <= j < i ==> v@[j]@ != s@,
        decreases v.len() - i,
    {
        if v[i] == *s {
            assert(views(v@)[i as int] == s@);
            return true;
        }
        i += 1;
    }
    assert forall|j: int| 0 <= j < views(v@).len() implies views(v@)[j] != s@ by {
        assert(views(v@)[j] == v@[j]@);
    }
    false
}

/// Whether two strings are equal.
pub fn str_eq(a: &str, b: &str) -> (r: bool)
    ensures
        r == (a@ == b@),
{
    let ac = chars_of(a);
    let bc = chars_of(b);
    if ac.len() != bc.len() {
        return false;
    }
    let r = starts_with_chars(&ac, &bc);
    assert(ac@.take(bc@.len() as int) =~= ac@);
    r
}

/// Whether `p` is a prefix of `s`.
pub fn starts_with_chars(s: &Vec<char>, p: &Vec<char>) -> (b: bool)
    ensures
        b == has_prefix(s@, p@),
{
    if p.len() > s.len() {
        return false;
    }
    let b = occurs_at(s, p, 0);
    assert(s@.subrange(0, p.len() as int) =~= s@.take(p.len() as int));
    b
}

// ---------------------------------------------------------------------------
// Decimal numbers
// ---------------------------------------------------------------------------

/// An ASCII decimal digit.
pub open spec fn is_digit(c: char) -> bool {
    48 <= (c as u32) && (c as u32) <= 57
}

/// The value of a decimal digit.
pub open spec fn digit_value(c: char) -> int {
    (c as u32) - 48
}

/// Whether `s` holds only decimal digits.
pub open spec fn all_digits(s: Seq<char>) -> bool {
    forall|i: int| 0 <= i < s.len() ==> is_digit(#[trigger] s[i])
}

/// The number that a run of decimal digits denotes.
pub open spec fn digits_value(s: Seq<char>) -> nat
    decreases s.len(),
{
    if s.len() == 0 {
        0
    } else {
        (digits_value(s.drop_last()) * 10 + digit_value(s.last())) as nat
    }
}

/// The digit run of an unsigned decimal: `s` after an optional `+`, when that
/// is a non-empty run of digits (as `usize::from_str` accepts it).
pub open spec fn unsigned_digits(s: Seq<char>) -> Option<Seq<char>> {
    let d = if s.len() > 0 && s[0] == '+' {
        s.drop_first()
    } else {
        s
    };
    if d.len() > 0 && all_digits(d) {
        Some(d)
    } else {
        None
    }
}

/// What `usize::from_str` gives for `s`.
pub open spec fn parse_usize_spec(s: Seq<char>) -> Option<usize> {
    match unsigned_digits(s) {
        Some(d) => if digits_value(d) <= usize::MAX {
            Some(digits_value(d) as usize)
        } else {
            None
        },
        None => None,
    }
}

/// The sign and digit run of a signed decimal: an optional `+` or `-`, then
/// a non-empty run of digits (as `i32::from_str` accepts it).
pub open spec fn signed_digits(s: Seq<char>) -> Option<(bool, Seq<char>)> {
    let neg = s.len() > 0 && s[0] == '-';
    let d = if s.len() > 0 && (s[0] == '+' || s[0] == '-') {
        s.drop_first()
    } else {
        s
    };
    if d.len() > 0 && all_digits(d) {
        Some((neg, d))
    } else {
        None
    }
}

/// The integer that a signed decimal denotes, before any range check.
pub open spec fn signed_value(neg: bool, d: Seq<char>) -> int {
    if neg {
        -(digits_value(d) as int)
    } else {
        digits_value(d) as int
    }
}

/// What `i32::from_str` gives for `s`.
pub open spec fn parse_i32_spec(s: Seq<char>) -> Option<i32> {
    match signed_digits(s) {
        Some((neg, d)) => if i32::MIN <= signed_value(neg, d) <= i32::MAX {
            Some(signed_value(neg, d) as i32)
        } else {
            None
        },
        None => None,
    }
}

/// Appending a digit never lowers the value of a digit run.
proof fn lemma_digits_value_grows(s: Seq<char>, k: int)
    requires
        0 <= k <= s.len(),
        all_digits(s),
    ensures
        digits_value(s.take(k)) <= digits_value(s),
    decreases s.len() - k,
{
    if k < s.len() {
        lemma_digits_value_grows(s, k + 1);
        assert(s.take(k + 1).drop_last() =~= s.take(k));
        assert(is_digit(s[k]));
    } else {
        assert(s.take(k) =~= s);
    }
}

/// The value of a digit run, or `None` when it exceeds `limit`.
fn digits_value_upto(d: &Vec<char>, start: usize, limit: u64) -> (r: Option<u64>)
    requires
        start <= d.len(),
        limit >= 9,
        all_digits(d@.subrange(start as int, d.len() as int)),
    ensures
        match r {
            Some(v) => v == digits_value(d@.subrange(start as int, d.len() as int)) && v <= limit,
            None => digits_value(d@.subrange(start as int, d.len() as int)) > limit,
        },
{
    let ghost full = d@.subrange(start as int, d.len() as int);
    let mut acc: u64 = 0;
    let mut i = start;
    while i < d.len()
        invariant
            start <= i <= d.len(),
            limit >= 9,
            full == d@.subrange(start as int, d.len() as int),
            all_digits(full),
            acc == digits_value(full.take(i - start)),
            acc <= limit,
        decreases d.len() - i,
    {
        let c = d[i];
        assert(full[i - start] == c);
        assert(is_digit(full[i - start]));
        assert(full.take(i - start + 1).drop_last() =~= full.take(i - start));
        let dv = (c as u32 - 48) as u64;
        if acc > (limit - dv) / 10 {
            proof {
                assert(digits_value(full.take(i - start + 1)) > limit) by (nonlinear_arith)
                    requires
                        acc > (limit - dv) / 10,
                        digits_value(full.take(i - start + 1)) == acc * 10 + dv,
                        dv <= 9,
                        dv <= limit,
                ;
                lemma_digits_value_grows(full, i - start + 1);
            }
            return None;
        }
        proof {
            assert(acc * 10 + dv <= limit) by (nonlinear_arith)
                requires
                    acc <= (limit - dv) / 10,
                    dv <= limit,
            ;
        }
        acc = acc * 10 + dv;
        i += 1;
    }
    assert(full.take(d.len() - start) =~= full);
    Some(acc)
}

/// `usize::from_str`: an optional `+` then a non-empty run of decimal digits
/// whose value fits in `usize`; anything else is `None`.
pub fn parse_usize(s: &str) -> (r: Option<usize>)
    ensures
        r == parse_usize_spec(s@),
{
    let cs = chars_of(s);
    let start: usize = if cs.len() > 0 && cs[0] == '+' {
        1
    } else {
        0
    };
    let ghost d = cs@.subrange(start as int, cs.len() as int);
    assert(d =~= (if cs@.len() > 0 && cs@[0] == '+' {
        cs@.drop_first()
    } else {
        cs@
    }));
    if start >= cs.len() {
        return None;
    }
    let mut i = start;
    while i < cs.len()
        invariant
            start <= i <= cs.len(),
            cs@ == s@,
            d == cs@.subrange(start as int, cs.len() as int),
            d.len() > 0,
            unsigned_digits(s@) == (if all_digits(d) {
                Some(d)
            } else {
                None
            }),
            forall|k: int| start <= k < i ==> is_digit(cs@[k]),
        decreases cs.len() - i,
    {
        let v = cs[i] as u32;
        if !(48 <= v && v <= 57) {
            assert(!is_digit(d[i - start]));
            return None;
        }
        i += 1;
    }
    assert forall|k: int| 0 <= k < d.len() implies is_digit(#[trigger] d[k]) by {
        assert(d[k] == cs@[start + k]);
    }
    match digits_value_upto(&cs, start, usize::MAX as u64) {
        Some(v) => Some(v as usize),
        None => None,
    }
}

/// `i32::from_str`: an optional sign then a non-empty run of decimal digits
/// whose value lies in the range of `i32`; anything else is `None`.
pub fn parse_i32(s: &str) -> (r: Option<i32>)
    ensures
        r == parse_i32_spec(s@),
{
    let cs = chars_of(s);
    let neg = cs.len() > 0 && cs[0] == '-';
    let start: usize = if cs.len() > 0 && (cs[0] == '+' || cs[0] == '-') {
        1
    } else {
        0
    };
    let ghost d = cs@.subrange(start as int, cs.len() as int);
    assert(d =~= (if cs@.len() > 0 && (cs@[0] == '+' || cs@[0] == '-') {
        cs@.drop_first()
    } else {
        cs@
    }));
    if start >= cs.len() {
        return None;
    }
    let mut i = start;
    while i < cs.len()
        invariant
            start <= i <= cs.len(),
            cs@ == s@,
            d == cs@.subrange(start as int, cs.len() as int),
            d.len() > 0,
            signed_digits(s@) == (if all_digits(d) {
                Some((neg, d))
            } else {
                None
            }),
            forall|k: int| start <= k < i ==> is_digit(cs@[k]),
        decreases cs.len() - i,
    {
        let v = cs[i] as u32;
        if !(48 <= v && v <= 57) {
            assert(!is_digit(d[i - start]));
            return None;
        }
        i += 1;
    }
    assert forall|k: int| 0 <= k < d.len() implies is_digit(#[trigger] d[k]) by {
        assert(d[k] == cs@[start + k]);
    }
    match digits_value_upto(&cs, start, 2147483648) {
        Some(v) => {
            if neg {
                Some((0 - (v as i64)) as i32)
            } else if v <= 2147483647 {
                Some(v as i32)
            } else {
                None
            }
        },
        None => None,
    }
}

/// The character of a decimal digit.
pub open spec fn digit_char(d: nat) -> char {
    ((d + 48) as u32) as char
}

/// The decimal digits of `n`, most significant first, without leading zeros.
pub open spec fn decimal(n: nat) -> Seq<char>
    decreases n,
{
    if n < 10 {
        seq![digit_char(n)]
    } else {
        decimal(n / 10).push(digit_char(n % 10))
    }
}

/// A signed number in decimal, with a leading `-` when negative.
pub open spec fn signed_decimal(v: int) -> Seq<char> {
    if v < 0 {
        seq!['-'] + decimal((-v) as nat)
    } else {
        decimal(v as nat)
    }
}

fn digit(d: u64) -> (c: char)
    requires
        d < 10,
    ensures
        c == digit_char(d as nat),
{
    let b = (d as u8) + 48;
    b as char
}

/// Appends the decimal digits of `n` to `s`.
pub fn push_decimal(s: &mut String, n: u64)
    ensures
        final(s)@ == old(s)@ + decimal(n as nat),
    decreases n,
{
    if n >= 10 {
        push_decimal(s, n / 10);
    }
    push_char(s, digit(n % 10));
    assert(decimal(n as nat) =~= if n < 10 {
        seq![digit_char(n as nat)]
    } else {
        decimal((n / 10) as nat).push(digit_char((n % 10) as nat))
    });
}

/// Appends a signed number in decimal to `s`.
pub fn push_signed_decimal(s: &mut String, v: i64)
    ensures
        final(s)@ == old(s)@ + signed_decimal(v as int),
{
    if v < 0 {
        push_char(s, '-');
        let m: u64 = if v == i64::MIN {
            9223372036854775808u64
        } else {
            (-v) as u64
        };
        push_decimal(s, m);
        assert(seq!['-'] + decimal(m as nat) =~= seq!['-'].add(decimal(m as nat)));
    } else {
        push_decimal(s, v as u64);
    }
}

/// The decimal form of `n` (`n.to_string()`).
pub fn decimal_string(n: u64) -> (r: String)
    ensures
        r@ == decimal(n as nat),
{
    let mut s = String::new();
    push_decimal(&mut s, n);
    s
}

/// The decimal form of `n` is a non-empty run of digits that denotes `n`.
pub proof fn lemma_decimal_digits(n: nat)
    ensures
        decimal(n).len() > 0,
        all_digits(decimal(n)),
        digits_value(decimal(n)) == n,
    decreases n,
{
    if n >= 10 {
        lemma_decimal_digits(n / 10);
        let d = decimal(n);
        assert(d.drop_last() =~= decimal(n / 10));
        assert(d.last() == digit_char(n % 10));
        assert(digit_value(digit_char(n % 10)) == n % 10);
        assert(digits_value(d) == digits_value(d.drop_last()) * 10 + digit_value(d.last()));
    } else {
        let d = decimal(n);
        assert(d.drop_last() =~= Seq::<char>::empty());
        assert(digit_value(digit_char(n)) == n);
        assert(digits_value(d) == digits_value(d.drop_last()) * 10 + digit_value(d.last()));
        assert forall|i: int| 0 <= i < d.len() implies is_digit(#[trigger] d[i]) by {
            if i < d.len() - 1 {
                assert(d[i] == decimal(n / 10)[i]);
            }
        }
    }
}

/// Reading back the decimal form of a number gives the number.
pub proof fn lemma_parse_decimal_roundtrip(n: usize)
    ensures
        parse_usize_spec(decimal(n as nat)) == Some(n),
{
    lemma_decimal_digits(n as nat);
    let d = decimal(n as nat);
    assert(is_digit(d[0]));
}

} // verus!
