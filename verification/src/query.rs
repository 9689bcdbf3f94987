//! Search queries: the query text built from the advanced search form, the
//! form's checks, the search options it sends, the query behind a category
//! filter, and the quick query of the compact search panel.

use vstd::prelude::*;

use crate::library::{opt_view, sorted_distinct, strictly_sorted, StoredFile};
use crate::metadata::{comma_items, join_spec, join_with};
use crate::text::{
    blank, comma_list, parse_i32, parse_i32_spec, push_signed_decimal, push_str, signed_decimal,
    trim, views,
};

verus! {

broadcast use vstd::string::group_string_axioms;

// ---------------------------------------------------------------------------
// Search options
// ---------------------------------------------------------------------------

/// Paging, ordering and filtering of a search.
#[derive(Clone, Debug)]
pub struct SearchOptions {
    pub offset: usize,
    pub limit: usize,
    pub sort_by: Option<String>,
    pub sort_direction: Option<String>,
    pub include_deleted: bool,
}

/// The options of an advanced search: the first 100 results, most recently
/// updated first, deleted files left out.
pub fn collect_search_options() -> (r: SearchOptions)
    ensures
        r.offset == 0,
        r.limit == 100,
        opt_view(r.sort_by) == Some("updated_at"@),
        opt_view(r.sort_direction) == Some("DESC"@),
        !r.include_deleted,
{
    SearchOptions {
        offset: 0,
        limit: 100,
        sort_by: Some("updated_at".to_owned()),
        sort_direction: Some("DESC".to_owned()),
        include_deleted: false,
    }
}

// ---------------------------------------------------------------------------
// The advanced search form
// ---------------------------------------------------------------------------

/// The fields of the advanced search form; `category1` is the first-level
/// category chosen, if any.
#[derive(Clone, Debug)]
pub struct AdvancedSearchFields {
    pub title: String,
    pub authors: String,
    pub year_from: String,
    pub year_to: String,
    pub publisher: String,
    pub source: String,
    pub tags: String,
    pub content: String,
    pub category1: Option<String>,
    pub exact_match: bool,
    pub case_sensitive: bool,
    pub include_content: bool,
}

/// The value of `AdvancedSearchFields`.
pub struct SearchFieldsView {
    pub title: Seq<char>,
    pub authors: Seq<char>,
    pub year_from: Seq<char>,
    pub year_to: Seq<char>,
    pub publisher: Seq<char>,
    pub source: Seq<char>,
    pub tags: Seq<char>,
    pub content: Seq<char>,
    pub category1: Option<Seq<char>>,
    pub exact_match: bool,
    pub case_sensitive: bool,
    pub include_content: bool,
}

impl View for AdvancedSearchFields {
    type V = SearchFieldsView;

    open spec fn view(&self) -> SearchFieldsView {
        SearchFieldsView {
            title: self.title@,
            authors: self.authors@,
            year_from: self.year_from@,
            year_to: self.year_to@,
            publisher: self.publisher@,
            source: self.source@,
            tags: self.tags@,
            content: self.content@,
            category1: opt_view(self.category1),
            exact_match: self.exact_match,
            case_sensitive: self.case_sensitive,
            include_content: self.include_content,
        }
    }
}

/// One condition of a query: `"value" in field` for an exact match,
/// `value in field` otherwise.
pub open spec fn condition(value: Seq<char>, field: Seq<char>, exact: bool) -> Seq<char> {
    if exact {
        "\""@ + value + "\" in "@ + field
    } else {
        value + " in "@ + field
    }
}

/// The condition on a text field, when it is not blank.
pub open spec fn text_conditions(value: Seq<char>, field: Seq<char>, exact: bool) -> Seq<
    Seq<char>,
> {
    if trim(value).len() > 0 {
        seq![condition(value, field, exact)]
    } else {
        Seq::empty()
    }
}

/// One condition per item of a comma-separated field, when it is not blank.
pub open spec fn list_conditions(value: Seq<char>, field: Seq<char>, exact: bool) -> Seq<
    Seq<char>,
> {
    if trim(value).len() > 0 {
        comma_items(value).map_values(|item: Seq<char>| condition(item, field, exact))
    } else {
        Seq::empty()
    }
}

/// The condition on a year bound, when the field holds a number.
pub open spec fn year_conditions(value: Seq<char>, op: Seq<char>) -> Seq<Seq<char>> {
    if value.len() > 0 && parse_i32_spec(value) is Some {
        seq!["year "@ + op + " "@ + signed_decimal(parse_i32_spec(value)->0 as int)]
    } else {
        Seq::empty()
    }
}

/// The conditions of the form, in order: title, authors, years, publisher,
/// source, tags, first-level category, and content when it is to be
/// searched.
pub open spec fn query_conditions(f: SearchFieldsView) -> Seq<Seq<char>> {
    text_conditions(f.title, "title"@, f.exact_match) + list_conditions(
        f.authors,
        "authors"@,
        f.exact_match,
    ) + year_conditions(f.year_from, ">="@) + year_conditions(f.year_to, "<="@)
        + text_conditions(f.publisher, "publisher"@, f.exact_match) + text_conditions(
        f.source,
        "source"@,
        f.exact_match,
    ) + list_conditions(f.tags, "tags"@, f.exact_match) + match f.category1 {
        Some(c) => seq!["category1:"@ + c],
        None => Seq::empty(),
    } + if f.include_content {
        text_conditions(f.content, "content"@, f.exact_match)
    } else {
        Seq::empty()
    }
}

/// The query of the form: its conditions joined with " AND ", or "*" (all
/// files) when there are none.
pub open spec fn advanced_query(f: SearchFieldsView) -> Seq<char> {
    let c = query_conditions(f);
    if c.len() == 0 {
        "*"@
    } else {
        join_spec(c, " AND "@)
    }
}

/// Why the advanced search form is refused.
#[derive(Clone, Copy, Debug, PartialEq, Eq, Structural)]
pub enum SearchFormError {
    /// The lower year bound is above the upper one.
    YearRange,
    /// Nothing to search for.
    NoCriteria,
}

impl SearchFormError {
    /// The message shown for the error.
    pub fn message(&self) -> (r: &'static str)
        ensures
            r@ == search_error_text(*self),
    {
        match self {
            SearchFormError::YearRange => "Year range is invalid: 'from' year cannot be greater than 'to' year",
            SearchFormError::NoCriteria => "Please provide at least one search criterion",
        }
    }
}

/// The message of a form error.
pub open spec fn search_error_text(e: SearchFormError) -> Seq<char> {
    match e {
        SearchFormError::YearRange => "Year range is invalid: 'from' year cannot be greater than 'to' year"@,
        SearchFormError::NoCriteria => "Please provide at least one search criterion"@,
    }
}

/// The check of the form: the year bounds (where both are numbers) must
/// not be reversed, and at least one field must hold something (a text
/// field that is not blank, a year that is a number, or a category).
pub open spec fn search_check(f: SearchFieldsView) -> Result<(), SearchFormError> {
    let from = parse_i32_spec(f.year_from);
    let to = parse_i32_spec(f.year_to);
    if from is Some && to is Some && from->0 > to->0 {
        Err(SearchFormError::YearRange)
    } else if trim(f.title).len() == 0 && trim(f.authors).len() == 0 && trim(f.publisher).len()
        == 0 && trim(f.source).len() == 0 && trim(f.tags).len() == 0 && trim(f.content).len() == 0
        && from is None && to is None && f.category1 is None {
        Err(SearchFormError::NoCriteria)
    } else {
        Ok(())
    }
}

/// One condition.
fn condition_of(value: &str, field: &str, exact: bool) -> (r: String)
    ensures
        r@ == condition(value@, field@, exact),
{
    let mut r = String::new();
    if exact {
        push_str(&mut r, "\"");
        push_str(&mut r, value);
        push_str(&mut r, "\" in ");
    } else {
        push_str(&mut r, value);
        push_str(&mut r, " in ");
    }
    push_str(&mut r, field);
    r
}

/// Appends the condition on a text field.
fn add_text_condition(parts: &mut Vec<String>, value: &str, field: &str, exact: bool)
    ensures
        views(final(parts)@) == views(old(parts)@) + text_conditions(value@, field@, exact),
{
    if !blank(value) {
        let c = condition_of(value, field, exact);
        parts.push(c);
        assert(views(parts@) =~= views(old(parts)@) + seq![c@]);
    } else {
        assert(views(parts@) =~= views(old(parts)@) + Seq::<Seq<char>>::empty());
    }
}

/// Appends the conditions on a comma-separated field.
fn add_list_conditions(parts: &mut Vec<String>, value: &str, field: &str, exact: bool)
    ensures
        views(final(parts)@) == views(old(parts)@) + list_conditions(value@, field@, exact),
{
    if blank(value) {
        assert(views(parts@) =~= views(old(parts)@) + Seq::<Seq<char>>::empty());
        return;
    }
    let items = comma_list(value);
    let ghost start = views(parts@);
    let ghost f = |item: Seq<char>| condition(item, field@, exact);
    let mut i: usize = 0;
    while i < items.len()
        invariant
            i <= items.len(),
            views(items@) == comma_items(value@),
            views(parts@) == start + views(items@).take(i as int).map_values(f),
            f == (|item: Seq<char>| condition(item, field@, exact)),
        decreases items.len() - i,
    {
        let c = condition_of(items[i].as_str(), field, exact);
        let ghost before = views(parts@);
        parts.push(c);
        assert(views(parts@) =~= before.push(c@));
        assert(views(items@)[i as int] == items@[i as int]@);
        assert(c@ == f(views(items@)[i as int]));
        assert(views(items@).take(i + 1).map_values(f) =~= views(items@).take(i as int).map_values(
            f,
        ).push(c@));
        assert(views(parts@) =~= start + views(items@).take(i + 1).map_values(f));
        i += 1;
    }
    assert(views(items@).take(items.len() as int) =~= views(items@));
}

/// Appends the condition on a year bound.
fn add_year_condition(parts: &mut Vec<String>, value: &str, op: &str)
    ensures
        views(final(parts)@) == views(old(parts)@) + year_conditions(value@, op@),
{
    let parsed = if !value.is_empty() {
        parse_i32(value)
    } else {
        None
    };
    match parsed {
        Some(y) => {
            let mut c = String::new();
            push_str(&mut c, "year ");
            push_str(&mut c, op);
            push_str(&mut c, " ");
            push_signed_decimal(&mut c, y as i64);
            parts.push(c);
            assert(views(parts@) =~= views(old(parts)@) + seq![c@]);
        },
        None => {
            assert(views(parts@) =~= views(old(parts)@) + Seq::<Seq<char>>::empty());
        },
    }
}

impl AdvancedSearchFields {
    /// The form when it opens: every field empty, nothing chosen, exact
    /// match and case sensitivity off, content search on.
    pub fn new() -> (r: Self)
        ensures
            r@.title.len() == 0 && r@.authors.len() == 0 && r@.year_from.len() == 0
                && r@.year_to.len() == 0 && r@.publisher.len() == 0 && r@.source.len() == 0
                && r@.tags.len() == 0 && r@.content.len() == 0,
            r@.category1 is None,
            !r@.exact_match && !r@.case_sensitive && r@.include_content,
    {
        AdvancedSearchFields {
            title: String::new(),
            authors: String::new(),
            year_from: String::new(),
            year_to: String::new(),
            publisher: String::new(),
            source: String::new(),
            tags: String::new(),
            content: String::new(),
            category1: None,
            exact_match: false,
            case_sensitive: false,
            include_content: true,
        }
    }

    /// Empties the form (the state it opens in).
    pub fn clear_all_fields(&mut self)
        ensures
            final(self)@.title.len() == 0 && final(self)@.authors.len() == 0
                && final(self)@.year_from.len() == 0 && final(self)@.year_to.len() == 0
                && final(self)@.publisher.len() == 0 && final(self)@.source.len() == 0
                && final(self)@.tags.len() == 0 && final(self)@.content.len() == 0,
            final(self)@.category1 is None,
            !final(self)@.exact_match && !final(self)@.case_sensitive
                && final(self)@.include_content,
    {
        *self = AdvancedSearchFields::new();
    }

    /// Takes over a quick query: it becomes the title condition unless it is
    /// empty or "*".
    pub fn set_search_query(&mut self, query: &str)
        ensures
            if query@.len() > 0 && query@ != "*"@ {
                final(self)@ == (SearchFieldsView { title: query@, ..old(self)@ })
            } else {
                final(self)@ == old(self)@
            },
    {
        if !query.is_empty() && !crate::text::str_eq(query, "*") {
            self.title = query.to_owned();
        }
    }

    /// The query text of the form.
    pub fn build_advanced_query(&self) -> (r: String)
        ensures
            r@ == advanced_query(self@),
    {
        let mut parts: Vec<String> = Vec::new();
        assert(views(parts@) =~= Seq::<Seq<char>>::empty());
        add_text_condition(&mut parts, self.title.as_str(), "title", self.exact_match);
        add_list_conditions(&mut parts, self.authors.as_str(), "authors", self.exact_match);
        add_year_condition(&mut parts, self.year_from.as_str(), ">=");
        add_year_condition(&mut parts, self.year_to.as_str(), "<=");
        add_text_condition(&mut parts, self.publisher.as_str(), "publisher", self.exact_match);
        add_text_condition(&mut parts, self.source.as_str(), "source", self.exact_match);
        add_list_conditions(&mut parts, self.tags.as_str(), "tags", self.exact_match);
        let ghost before_cat = views(parts@);
        match &self.category1 {
            Some(c) => {
                let mut s = String::new();
                push_str(&mut s, "category1:");
                push_str(&mut s, c.as_str());
                parts.push(s);
                assert(views(parts@) =~= before_cat + seq![s@]);
            },
            None => {
                assert(views(parts@) =~= before_cat + Seq::<Seq<char>>::empty());
            },
        }
        let ghost before_content = views(parts@);
        if self.include_content {
            add_text_condition(&mut parts, self.content.as_str(), "content", self.exact_match);
        } else {
            assert(views(parts@) =~= before_content + Seq::<Seq<char>>::empty());
        }
        assert(views(parts@) =~= query_conditions(self@));
        if parts.len() == 0 {
            "*".to_owned()
        } else {
            join_with(&parts, " AND ")
        }
    }

    /// Checks the form.
    pub fn validate_search_options(&self) -> (r: Result<(), SearchFormError>)
        ensures
            r == search_check(self@),
    {
        let from = parse_i32(self.year_from.as_str());
        let to = parse_i32(self.year_to.as_str());
        match (from, to) {
            (Some(a), Some(b)) => {
                if a > b {
                    return Err(SearchFormError::YearRange);
                }
            },
            _ => {},
        }
        if blank(self.title.as_str()) && blank(self.authors.as_str()) && blank(
            self.publisher.as_str(),
        ) && blank(self.source.as_str()) && blank(self.tags.as_str()) && blank(
            self.content.as_str(),
        ) && from.is_none() && to.is_none() && self.category1.is_none() {
            return Err(SearchFormError::NoCriteria);
        }
        Ok(())
    }
}

// ---------------------------------------------------------------------------
// Other queries
// ---------------------------------------------------------------------------

/// The query behind a category filter: all files for no category or
/// "All Files", otherwise `category:` and the path.
pub open spec fn category_query_spec(path: Seq<char>) -> Seq<char> {
    if path.len() == 0 || path == "All Files"@ {
        "*"@
    } else {
        "category:"@ + path
    }
}

/// The query behind a category filter.
pub fn category_query(path: &str) -> (r: String)
    ensures
        r@ == category_query_spec(path@),
{
    if path.is_empty() || crate::text::str_eq(path, "All Files") {
        "*".to_owned()
    } else {
        let mut r = String::new();
        push_str(&mut r, "category:");
        push_str(&mut r, path);
        r
    }
}

/// The query of the compact advanced search panel.
pub open spec fn panel_query_spec(tags: Seq<char>, title: Seq<char>, author: Seq<char>) -> Seq<char> {
    "tag:"@ + tags + " title:"@ + title + " author:"@ + author
}

/// The query of the compact advanced search panel: its tags, title and
/// author fields as `tag:… title:… author:…`.
pub fn panel_query(tags: &str, title: &str, author: &str) -> (r: String)
    ensures
        r@ == panel_query_spec(tags@, title@, author@),
{
    let mut r = String::new();
    push_str(&mut r, "tag:");
    push_str(&mut r, tags);
    push_str(&mut r, " title:");
    push_str(&mut r, title);
    push_str(&mut r, " author:");
    push_str(&mut r, author);
    r
}

// ---------------------------------------------------------------------------
// Category choices
// ---------------------------------------------------------------------------

/// The first levels of the files, in order.
pub open spec fn first_level_names(fs: Seq<StoredFile>) -> Seq<Seq<char>> {
    fs.map_values(|f: StoredFile| f.category1@)
}

/// The choices of a first-level category selector: the placeholder, then
/// each first level of the files once, in order of name.
pub fn category_choices(files: &Vec<StoredFile>, placeholder: &str) -> (r: Vec<String>)
    ensures
        r@.len() >= 1,
        r@[0]@ == placeholder@,
        strictly_sorted(views(r@).skip(1)),
        views(r@).skip(1).to_set() == first_level_names(files@).to_set(),
{
    let mut firsts: Vec<String> = Vec::new();
    let mut i: usize = 0;
    while i < files.len()
        invariant
            i <= files.len(),
            views(firsts@) == first_level_names(files@.take(i as int)),
        decreases files.len() - i,
    {
        firsts.push(files[i].category1.clone());
        assert(first_level_names(files@.take(i + 1)) =~= first_level_names(files@.take(i as int)).push(
            files@[i as int].category1@,
        ));
        i += 1;
    }
    assert(files@.take(files.len() as int) =~= files@);
    let names = sorted_distinct(&firsts);
    let mut r: Vec<String> = Vec::new();
    r.push(placeholder.to_owned());
    let mut k: usize = 0;
    while k < names.len()
        invariant
            k <= names.len(),
            r@.len() == k + 1,
            r@[0]@ == placeholder@,
            views(r@).skip(1) == views(names@).take(k as int),
        decreases names.len() - k,
    {
        r.push(names[k].clone());
        assert(views(r@).skip(1) =~= views(names@).take(k + 1));
        k += 1;
    }
    assert(views(names@).take(names.len() as int) =~= views(names@));
    r
}

} // verus!

verus! {

// ---------------------------------------------------------------------------
// What the advanced query says
// ---------------------------------------------------------------------------

/// Whether `t` occurs in `s` as a contiguous part.
pub open spec fn occurs_in(s: Seq<char>, t: Seq<char>) -> bool {
    exists|i: int| #![trigger s.subrange(i, i + t.len())] 0 <= i && i + t.len() <= s.len() && s.subrange(i, i + t.len()) == t
}

/// Whether the advanced search form holds some criterion: a non-blank
/// title, publisher or source, an author or tag item, a year bound that is
/// a number, a chosen category, or non-blank content to be searched.
pub open spec fn has_criterion(f: SearchFieldsView) -> bool {
    ||| trim(f.title).len() > 0
    ||| (trim(f.authors).len() > 0 && comma_items(f.authors).len() > 0)
    ||| (f.year_from.len() > 0 && parse_i32_spec(f.year_from) is Some)
    ||| (f.year_to.len() > 0 && parse_i32_spec(f.year_to) is Some)
    ||| trim(f.publisher).len() > 0
    ||| trim(f.source).len() > 0
    ||| (trim(f.tags).len() > 0 && comma_items(f.tags).len() > 0)
    ||| f.category1 is Some
    ||| (f.include_content && trim(f.content).len() > 0)
}

/// Each item of a joined list occurs in the joined text.
proof fn lemma_join_occurs(items: Seq<Seq<char>>, sep: Seq<char>, k: int)
    requires
        0 <= k < items.len(),
    ensures
        occurs_in(join_spec(items, sep), items[k]),
    decreases items.len(),
{
    let t = items[k];
    let j = join_spec(items, sep);
    if items.len() == 1 {
        assert(j.subrange(0int, 0int + t.len()) =~= t);
    } else {
        let j0 = join_spec(items.drop_last(), sep);
        assert(j == j0 + sep + items.last());
        if k == items.len() - 1 {
            let p = (j0.len() + sep.len()) as int;
            assert(j.subrange(p, p + t.len()) =~= t);
        } else {
            assert(items.drop_last()[k] == t);
            lemma_join_occurs(items.drop_last(), sep, k);
            let p = choose|p: int| #![trigger j0.subrange(p, p + t.len())] 0 <= p && p + t.len() <= j0.len() && j0.subrange(p, p + t.len()) == t;
            assert(j.subrange(p, p + t.len()) =~= j0.subrange(p, p + t.len()));
        }
    }
}

/// A condition of the query occurs in it, and makes it more than "*".
proof fn lemma_query_has(f: SearchFieldsView, k: int)
    requires
        0 <= k < query_conditions(f).len(),
        query_conditions(f)[k].len() >= 2,
    ensures
        occurs_in(advanced_query(f), query_conditions(f)[k]),
        advanced_query(f) != "*"@,
{
    reveal_strlit("*");
    lemma_join_occurs(query_conditions(f), " AND "@, k);
    let q = advanced_query(f);
    let t = query_conditions(f)[k];
    let p = choose|p: int| #![trigger q.subrange(p, p + t.len())] 0 <= p && p + t.len() <= q.len() && q.subrange(p, p + t.len()) == t;
    assert(q.len() >= 2);
}

/// The condition on the chosen first-level category, if any.
pub open spec fn category_conditions(c: Option<Seq<char>>) -> Seq<Seq<char>> {
    match c {
        Some(v) => seq!["category1:"@ + v],
        None => Seq::empty(),
    }
}

/// The condition on the content, when content is to be searched.
pub open spec fn content_conditions(f: SearchFieldsView) -> Seq<Seq<char>> {
    if f.include_content {
        text_conditions(f.content, "content"@, f.exact_match)
    } else {
        Seq::empty()
    }
}

/// The first condition of a part of the query, when the part has one and
/// it is longer than "*", occurs in the query and makes it more than "*".
proof fn lemma_part_in_query(f: SearchFieldsView, pre: Seq<Seq<char>>, part: Seq<Seq<char>>, post: Seq<Seq<char>>)
    requires
        query_conditions(f) =~= pre + part + post,
        part.len() > 0,
        part[0].len() >= 2,
    ensures
        occurs_in(advanced_query(f), part[0]),
        advanced_query(f) != "*"@,
{
    assert((pre + part + post)[pre.len() as int] == part[0]);
    lemma_query_has(f, pre.len() as int);
}

/// A title criterion makes the query more than "*", and its condition occurs in it.
proof fn lemma_title_in_query(f: SearchFieldsView)
    requires
        trim(f.title).len() > 0,
    ensures
        occurs_in(advanced_query(f), condition(f.title, "title"@, f.exact_match)),
        advanced_query(f) != "*"@,
{
    reveal_strlit(" in ");
    reveal_strlit("\" in ");
    reveal_strlit("category1:");
    reveal_strlit("year ");
    let t = text_conditions(f.title, "title"@, f.exact_match);
    let a = list_conditions(f.authors, "authors"@, f.exact_match);
    let y1 = year_conditions(f.year_from, ">="@);
    let y2 = year_conditions(f.year_to, "<="@);
    let p = text_conditions(f.publisher, "publisher"@, f.exact_match);
    let s = text_conditions(f.source, "source"@, f.exact_match);
    let g = list_conditions(f.tags, "tags"@, f.exact_match);
    let c = category_conditions(f.category1);
    let n = content_conditions(f);
    assert(query_conditions(f) =~= t + a + y1 + y2 + p + s + g + c + n);
    assert(t[0] == condition(f.title, "title"@, f.exact_match));
    lemma_part_in_query(f, Seq::<Seq<char>>::empty(), t, a + y1 + y2 + p + s + g + c + n);
}

/// A authors criterion makes the query more than "*", and its condition occurs in it.
proof fn lemma_authors_in_query(f: SearchFieldsView)
    requires
        trim(f.authors).len() > 0 && comma_items(f.authors).len() > 0,
    ensures
        occurs_in(advanced_query(f), condition(comma_items(f.authors)[0], "authors"@, f.exact_match)),
        advanced_query(f) != "*"@,
{
    reveal_strlit(" in ");
    reveal_strlit("\" in ");
    reveal_strlit("category1:");
    reveal_strlit("year ");
    let t = text_conditions(f.title, "title"@, f.exact_match);
    let a = list_conditions(f.authors, "authors"@, f.exact_match);
    let y1 = year_conditions(f.year_from, ">="@);
    let y2 = year_conditions(f.year_to, "<="@);
    let p = text_conditions(f.publisher, "publisher"@, f.exact_match);
    let s = text_conditions(f.source, "source"@, f.exact_match);
    let g = list_conditions(f.tags, "tags"@, f.exact_match);
    let c = category_conditions(f.category1);
    let n = content_conditions(f);
    assert(query_conditions(f) =~= t + a + y1 + y2 + p + s + g + c + n);
    assert(a[0] == condition(comma_items(f.authors)[0], "authors"@, f.exact_match));
    lemma_part_in_query(f, t, a, y1 + y2 + p + s + g + c + n);
}

/// A year_from criterion makes the query more than "*".
proof fn lemma_year_from_in_query(f: SearchFieldsView)
    requires
        f.year_from.len() > 0 && parse_i32_spec(f.year_from) is Some,
    ensures
        advanced_query(f) != "*"@,
{
    reveal_strlit(" in ");
    reveal_strlit("\" in ");
    reveal_strlit("category1:");
    reveal_strlit("year ");
    let t = text_conditions(f.title, "title"@, f.exact_match);
    let a = list_conditions(f.authors, "authors"@, f.exact_match);
    let y1 = year_conditions(f.year_from, ">="@);
    let y2 = year_conditions(f.year_to, "<="@);
    let p = text_conditions(f.publisher, "publisher"@, f.exact_match);
    let s = text_conditions(f.source, "source"@, f.exact_match);
    let g = list_conditions(f.tags, "tags"@, f.exact_match);
    let c = category_conditions(f.category1);
    let n = content_conditions(f);
    assert(query_conditions(f) =~= t + a + y1 + y2 + p + s + g + c + n);
    lemma_part_in_query(f, t + a, y1, y2 + p + s + g + c + n);
}

/// A year_to criterion makes the query more than "*".
proof fn lemma_year_to_in_query(f: SearchFieldsView)
    requires
        f.year_to.len() > 0 && parse_i32_spec(f.year_to) is Some,
    ensures
        advanced_query(f) != "*"@,
{
    reveal_strlit(" in ");
    reveal_strlit("\" in ");
    reveal_strlit("category1:");
    reveal_strlit("year ");
    let t = text_conditions(f.title, "title"@, f.exact_match);
    let a = list_conditions(f.authors, "authors"@, f.exact_match);
    let y1 = year_conditions(f.year_from, ">="@);
    let y2 = year_conditions(f.year_to, "<="@);
    let p = text_conditions(f.publisher, "publisher"@, f.exact_match);
    let s = text_conditions(f.source, "source"@, f.exact_match);
    let g = list_conditions(f.tags, "tags"@, f.exact_match);
    let c = category_conditions(f.category1);
    let n = content_conditions(f);
    assert(query_conditions(f) =~= t + a + y1 + y2 + p + s + g + c + n);
    lemma_part_in_query(f, t + a + y1, y2, p + s + g + c + n);
}

/// A publisher criterion makes the query more than "*", and its condition occurs in it.
proof fn lemma_publisher_in_query(f: SearchFieldsView)
    requires
        trim(f.publisher).len() > 0,
    ensures
        occurs_in(advanced_query(f), condition(f.publisher, "publisher"@, f.exact_match)),
        advanced_query(f) != "*"@,
{
    reveal_strlit(" in ");
    reveal_strlit("\" in ");
    reveal_strlit("category1:");
    reveal_strlit("year ");
    let t = text_conditions(f.title, "title"@, f.exact_match);
    let a = list_conditions(f.authors, "authors"@, f.exact_match);
    let y1 = year_conditions(f.year_from, ">="@);
    let y2 = year_conditions(f.year_to, "<="@);
    let p = text_conditions(f.publisher, "publisher"@, f.exact_match);
    let s = text_conditions(f.source, "source"@, f.exact_match);
    let g = list_conditions(f.tags, "tags"@, f.exact_match);
    let c = category_conditions(f.category1);
    let n = content_conditions(f);
    assert(query_conditions(f) =~= t + a + y1 + y2 + p + s + g + c + n);
    assert(p[0] == condition(f.publisher, "publisher"@, f.exact_match));
    lemma_part_in_query(f, t + a + y1 + y2, p, s + g + c + n);
}

/// A source criterion makes the query more than "*", and its condition occurs in it.
proof fn lemma_source_in_query(f: SearchFieldsView)
    requires
        trim(f.source).len() > 0,
    ensures
        occurs_in(advanced_query(f), condition(f.source, "source"@, f.exact_match)),
        advanced_query(f) != "*"@,
{
    reveal_strlit(" in ");
    reveal_strlit("\" in ");
    reveal_strlit("category1:");
    reveal_strlit("year ");
    let t = text_conditions(f.title, "title"@, f.exact_match);
    let a = list_conditions(f.authors, "authors"@, f.exact_match);
    let y1 = year_conditions(f.year_from, ">="@);
    let y2 = year_conditions(f.year_to, "<="@);
    let p = text_conditions(f.publisher, "publisher"@, f.exact_match);
    let s = text_conditions(f.source, "source"@, f.exact_match);
    let g = list_conditions(f.tags, "tags"@, f.exact_match);
    let c = category_conditions(f.category1);
    let n = content_conditions(f);
    assert(query_conditions(f) =~= t + a + y1 + y2 + p + s + g + c + n);
    assert(s[0] == condition(f.source, "source"@, f.exact_match));
    lemma_part_in_query(f, t + a + y1 + y2 + p, s, g + c + n);
}

/// A tags criterion makes the query more than "*", and its condition occurs in it.
proof fn lemma_tags_in_query(f: SearchFieldsView)
    requires
        trim(f.tags).len() > 0 && comma_items(f.tags).len() > 0,
    ensures
        occurs_in(advanced_query(f), condition(comma_items(f.tags)[0], "tags"@, f.exact_match)),
        advanced_query(f) != "*"@,
{
    reveal_strlit(" in ");
    reveal_strlit("\" in ");
    reveal_strlit("category1:");
    reveal_strlit("year ");
    let t = text_conditions(f.title, "title"@, f.exact_match);
    let a = list_conditions(f.authors, "authors"@, f.exact_match);
    let y1 = year_conditions(f.year_from, ">="@);
    let y2 = year_conditions(f.year_to, "<="@);
    let p = text_conditions(f.publisher, "publisher"@, f.exact_match);
    let s = text_conditions(f.source, "source"@, f.exact_match);
    let g = list_conditions(f.tags, "tags"@, f.exact_match);
    let c = category_conditions(f.category1);
    let n = content_conditions(f);
    assert(query_conditions(f) =~= t + a + y1 + y2 + p + s + g + c + n);
    assert(g[0] == condition(comma_items(f.tags)[0], "tags"@, f.exact_match));
    lemma_part_in_query(f, t + a + y1 + y2 + p + s, g, c + n);
}

/// A category criterion makes the query more than "*".
proof fn lemma_category_in_query(f: SearchFieldsView)
    requires
        f.category1 is Some,
    ensures
        advanced_query(f) != "*"@,
{
    reveal_strlit(" in ");
    reveal_strlit("\" in ");
    reveal_strlit("category1:");
    reveal_strlit("year ");
    let t = text_conditions(f.title, "title"@, f.exact_match);
    let a = list_conditions(f.authors, "authors"@, f.exact_match);
    let y1 = year_conditions(f.year_from, ">="@);
    let y2 = year_conditions(f.year_to, "<="@);
    let p = text_conditions(f.publisher, "publisher"@, f.exact_match);
    let s = text_conditions(f.source, "source"@, f.exact_match);
    let g = list_conditions(f.tags, "tags"@, f.exact_match);
    let c = category_conditions(f.category1);
    let n = content_conditions(f);
    assert(query_conditions(f) =~= t + a + y1 + y2 + p + s + g + c + n);
    lemma_part_in_query(f, t + a + y1 + y2 + p + s + g, c, n);
}

/// A content criterion makes the query more than "*", and its condition occurs in it.
proof fn lemma_content_in_query(f: SearchFieldsView)
    requires
        f.include_content && trim(f.content).len() > 0,
    ensures
        occurs_in(advanced_query(f), condition(f.content, "content"@, f.exact_match)),
        advanced_query(f) != "*"@,
{
    reveal_strlit(" in ");
    reveal_strlit("\" in ");
    reveal_strlit("category1:");
    reveal_strlit("year ");
    let t = text_conditions(f.title, "title"@, f.exact_match);
    let a = list_conditions(f.authors, "authors"@, f.exact_match);
    let y1 = year_conditions(f.year_from, ">="@);
    let y2 = year_conditions(f.year_to, "<="@);
    let p = text_conditions(f.publisher, "publisher"@, f.exact_match);
    let s = text_conditions(f.source, "source"@, f.exact_match);
    let g = list_conditions(f.tags, "tags"@, f.exact_match);
    let c = category_conditions(f.category1);
    let n = content_conditions(f);
    assert(query_conditions(f) =~= t + a + y1 + y2 + p + s + g + c + n + Seq::<Seq<char>>::empty());
    assert(n[0] == condition(f.content, "content"@, f.exact_match));
    lemma_part_in_query(f, t + a + y1 + y2 + p + s + g + c, n, Seq::<Seq<char>>::empty());
}

/// Any condition of a part of the query, when longer than "*", occurs in
/// the query.
proof fn lemma_part_item_in_query(
    f: SearchFieldsView,
    pre: Seq<Seq<char>>,
    part: Seq<Seq<char>>,
    post: Seq<Seq<char>>,
    i: int,
)
    requires
        query_conditions(f) =~= pre + part + post,
        0 <= i < part.len(),
        part[i].len() >= 2,
    ensures
        occurs_in(advanced_query(f), part[i]),
{
    assert((pre + part + post)[pre.len() + i] == part[i]);
    lemma_query_has(f, pre.len() + i);
}

/// Each author item of a non-blank authors field has its condition in the
/// query.
#[verifier::spinoff_prover]
#[verifier::rlimit(40)]
proof fn lemma_author_item_in_query(f: SearchFieldsView, i: int)
    requires
        trim(f.authors).len() > 0,
        0 <= i < comma_items(f.authors).len(),
    ensures
        occurs_in(advanced_query(f), condition(comma_items(f.authors)[i], "authors"@, f.exact_match)),
{
    reveal_strlit(" in ");
    reveal_strlit("\" in ");
    let t = text_conditions(f.title, "title"@, f.exact_match);
    let a = list_conditions(f.authors, "authors"@, f.exact_match);
    let y1 = year_conditions(f.year_from, ">="@);
    let y2 = year_conditions(f.year_to, "<="@);
    let p = text_conditions(f.publisher, "publisher"@, f.exact_match);
    let s = text_conditions(f.source, "source"@, f.exact_match);
    let g = list_conditions(f.tags, "tags"@, f.exact_match);
    let c = category_conditions(f.category1);
    let n = content_conditions(f);
    assert(query_conditions(f) =~= t + a + y1 + y2 + p + s + g + c + n);
    assert(a[i] == condition(comma_items(f.authors)[i], "authors"@, f.exact_match));
    lemma_part_item_in_query(f, t, a, y1 + y2 + p + s + g + c + n, i);
}

/// Each tag item of a non-blank tags field has its condition in the query.
#[verifier::spinoff_prover]
#[verifier::rlimit(40)]
proof fn lemma_tag_item_in_query(f: SearchFieldsView, i: int)
    requires
        trim(f.tags).len() > 0,
        0 <= i < comma_items(f.tags).len(),
    ensures
        occurs_in(advanced_query(f), condition(comma_items(f.tags)[i], "tags"@, f.exact_match)),
{
    reveal_strlit(" in ");
    reveal_strlit("\" in ");
    let t = text_conditions(f.title, "title"@, f.exact_match);
    let a = list_conditions(f.authors, "authors"@, f.exact_match);
    let y1 = year_conditions(f.year_from, ">="@);
    let y2 = year_conditions(f.year_to, "<="@);
    let p = text_conditions(f.publisher, "publisher"@, f.exact_match);
    let s = text_conditions(f.source, "source"@, f.exact_match);
    let g = list_conditions(f.tags, "tags"@, f.exact_match);
    let c = category_conditions(f.category1);
    let n = content_conditions(f);
    assert(query_conditions(f) =~= t + a + y1 + y2 + p + s + g + c + n);
    assert(g[i] == condition(comma_items(f.tags)[i], "tags"@, f.exact_match));
    lemma_part_item_in_query(f, t + a + y1 + y2 + p + s, g, c + n, i);
}

/// The query built from the advanced search form holds, for each non-blank
/// text field (title, publisher, source, and content when content is to be
/// searched), the condition on that value for that field's own name
/// (`value in field`, the value quoted under exact match), and the
/// condition on each author and tag item; it is "*" (all files) exactly
/// when the form holds no criterion.
pub proof fn lemma_advanced_query_criteria(f: SearchFieldsView)
    ensures
        trim(f.title).len() > 0 ==> occurs_in(advanced_query(f), condition(f.title, "title"@, f.exact_match)),
        trim(f.publisher).len() > 0 ==> occurs_in(advanced_query(f), condition(f.publisher, "publisher"@, f.exact_match)),
        trim(f.source).len() > 0 ==> occurs_in(advanced_query(f), condition(f.source, "source"@, f.exact_match)),
        f.include_content && trim(f.content).len() > 0 ==> occurs_in(advanced_query(f), condition(f.content, "content"@, f.exact_match)),
        advanced_query(f) == "*"@ <==> !has_criterion(f),
        trim(f.authors).len() > 0 ==> forall|i: int| 0 <= i < comma_items(f.authors).len() ==> occurs_in(
            advanced_query(f),
            condition(#[trigger] comma_items(f.authors)[i], "authors"@, f.exact_match),
        ),
        trim(f.tags).len() > 0 ==> forall|i: int| 0 <= i < comma_items(f.tags).len() ==> occurs_in(
            advanced_query(f),
            condition(#[trigger] comma_items(f.tags)[i], "tags"@, f.exact_match),
        ),
{
    reveal_strlit("*");
    if trim(f.authors).len() > 0 {
        assert forall|i: int| 0 <= i < comma_items(f.authors).len() implies occurs_in(
            advanced_query(f),
            condition(#[trigger] comma_items(f.authors)[i], "authors"@, f.exact_match),
        ) by {
            lemma_author_item_in_query(f, i);
        }
    }
    if trim(f.tags).len() > 0 {
        assert forall|i: int| 0 <= i < comma_items(f.tags).len() implies occurs_in(
            advanced_query(f),
            condition(#[trigger] comma_items(f.tags)[i], "tags"@, f.exact_match),
        ) by {
            lemma_tag_item_in_query(f, i);
        }
    }
    if trim(f.title).len() > 0 {
        lemma_title_in_query(f);
    }
    if trim(f.authors).len() > 0 && comma_items(f.authors).len() > 0 {
        lemma_authors_in_query(f);
    }
    if f.year_from.len() > 0 && parse_i32_spec(f.year_from) is Some {
        lemma_year_from_in_query(f);
    }
    if f.year_to.len() > 0 && parse_i32_spec(f.year_to) is Some {
        lemma_year_to_in_query(f);
    }
    if trim(f.publisher).len() > 0 {
        lemma_publisher_in_query(f);
    }
    if trim(f.source).len() > 0 {
        lemma_source_in_query(f);
    }
    if trim(f.tags).len() > 0 && comma_items(f.tags).len() > 0 {
        lemma_tags_in_query(f);
    }
    if f.category1 is Some {
        lemma_category_in_query(f);
    }
    if f.include_content && trim(f.content).len() > 0 {
        lemma_content_in_query(f);
    }
    if !has_criterion(f) {
        let t = text_conditions(f.title, "title"@, f.exact_match);
        let a = list_conditions(f.authors, "authors"@, f.exact_match);
        let y1 = year_conditions(f.year_from, ">="@);
        let y2 = year_conditions(f.year_to, "<="@);
        let p = text_conditions(f.publisher, "publisher"@, f.exact_match);
        let s = text_conditions(f.source, "source"@, f.exact_match);
        let g = list_conditions(f.tags, "tags"@, f.exact_match);
        let c = category_conditions(f.category1);
        let n = content_conditions(f);
        assert(query_conditions(f) =~= Seq::<Seq<char>>::empty());
    }
}

/// Whether the title and the source are the only fields of the form that
/// can hold a criterion.
pub open spec fn only_title_and_source(f: SearchFieldsView) -> bool {
    &&& !(trim(f.authors).len() > 0 && comma_items(f.authors).len() > 0)
    &&& !(f.year_from.len() > 0 && parse_i32_spec(f.year_from) is Some)
    &&& !(f.year_to.len() > 0 && parse_i32_spec(f.year_to) is Some)
    &&& trim(f.publisher).len() == 0
    &&& !(trim(f.tags).len() > 0 && comma_items(f.tags).len() > 0)
    &&& f.category1 is None
    &&& !(f.include_content && trim(f.content).len() > 0)
}

/// A form with only a title and a source searches for exactly those: the
/// title condition and the source condition joined by " AND ", either one
/// alone when the other is blank, and "*" when both are blank.
pub proof fn lemma_title_and_source_query(f: SearchFieldsView)
    requires
        only_title_and_source(f),
    ensures
        advanced_query(f) == if trim(f.title).len() > 0 && trim(f.source).len() > 0 {
            condition(f.title, "title"@, f.exact_match) + " AND "@ + condition(f.source, "source"@, f.exact_match)
        } else if trim(f.title).len() > 0 {
            condition(f.title, "title"@, f.exact_match)
        } else if trim(f.source).len() > 0 {
            condition(f.source, "source"@, f.exact_match)
        } else {
            "*"@
        },
{
    let t = text_conditions(f.title, "title"@, f.exact_match);
    let s = text_conditions(f.source, "source"@, f.exact_match);
    assert(query_conditions(f) =~= t + s);
    let c = t + s;
    let sep = " AND "@;
    if c.len() == 2 {
        assert(c.drop_last() =~= seq![c[0]]);
        assert(join_spec(c.drop_last(), sep) == c[0]);
        assert(join_spec(c, sep) == c[0] + sep + c[1]);
    } else if c.len() == 1 {
        assert(join_spec(c, sep) == c[0]);
    }
}

} // verus!
