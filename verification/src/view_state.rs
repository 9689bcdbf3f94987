//! The state of the browsing front end: the current query and its results,
//! the category tree built from them, the selections, loading and error
//! status, and the queue of notifications; plus page routes and their
//! breadcrumb trails.

use vstd::prelude::*;

use crate::library::{
    build_category_tree, cat_views, category_tree, entry_views, filter_by_category, opt_view,
    shown_files, stored_views, Category, FileEntry, SearchResult,
};
use crate::text::{chars_of, is_blank};

verus! {

broadcast use vstd::string::group_string_axioms;

// ---------------------------------------------------------------------------
// Notifications
// ---------------------------------------------------------------------------

/// The kind of a notification.
#[derive(Clone, Copy, Debug, PartialEq, Eq, Structural)]
pub enum ToastType {
    Success,
    Error,
    Info,
    Warning,
}

/// A notification shown for a few seconds.
#[derive(Clone, Debug)]
pub struct ToastMessage {
    pub id: String,
    pub message: String,
    pub toast_type: ToastType,
}

/// A lower-case hexadecimal digit.
pub open spec fn is_lower_hex(c: char) -> bool {
    ('0' <= c && c <= '9') || ('a' <= c && c <= 'f')
}

/// The hyphenated lower-case text form of a UUID: 36 characters, `-` at
/// positions 8, 13, 18 and 23 and lower-case hexadecimal digits elsewhere.
pub open spec fn is_uuid_text(s: Seq<char>) -> bool {
    &&& s.len() == 36
    &&& forall|i: int|
        0 <= i < 36 ==> if i == 8 || i == 13 || i == 18 || i == 23 {
            s[i] == '-'
        } else {
            is_lower_hex(#[trigger] s[i])
        }
}

/// `uuid::Uuid::new_v4().to_string()`: a random version-4 UUID in its
/// hyphenated lower-case form. Which UUID comes back is left open; only its
/// text form is stated.
#[verifier::external_body]
fn new_uuid_string() -> (r: String)
    ensures
        is_uuid_text(r@),
{
    uuid::Uuid::new_v4().to_string()
}

/// A new notification of the given kind with a fresh random identifier.
pub fn create_toast(toast_type: ToastType, message: &str) -> (t: ToastMessage)
    ensures
        t.message@ == message@,
        t.toast_type == toast_type,
        is_uuid_text(t.id@),
{
    let mut m = String::new();
    crate::text::push_str(&mut m, message);
    ToastMessage { id: new_uuid_string(), message: m, toast_type }
}

/// The background colour, icon colour and icon of a notification kind.
pub open spec fn toast_style_spec(t: ToastType) -> (Seq<char>, Seq<char>, Seq<char>) {
    match t {
        ToastType::Success => ("rgb(220, 252, 231)"@, "rgb(34, 197, 94)"@, "✓"@),
        ToastType::Error => ("rgb(254, 226, 226)"@, "rgb(239, 68, 68)"@, "✕"@),
        ToastType::Info => ("rgb(224, 231, 255)"@, "rgb(99, 102, 241)"@, "ℹ"@),
        ToastType::Warning => ("rgb(254, 243, 199)"@, "rgb(245, 158, 11)"@, "⚠"@),
    }
}

/// The background colour, icon colour and icon of a notification kind.
pub fn toast_style(t: ToastType) -> (r: (&'static str, &'static str, &'static str))
    ensures
        (r.0@, r.1@, r.2@) == toast_style_spec(t),
{
    match t {
        ToastType::Success => ("rgb(220, 252, 231)", "rgb(34, 197, 94)", "✓"),
        ToastType::Error => ("rgb(254, 226, 226)", "rgb(239, 68, 68)", "✕"),
        ToastType::Info => ("rgb(224, 231, 255)", "rgb(99, 102, 241)", "ℹ"),
        ToastType::Warning => ("rgb(254, 243, 199)", "rgb(245, 158, 11)", "⚠"),
    }
}

/// The value of a notification.
pub open spec fn toast_view(t: ToastMessage) -> (Seq<char>, Seq<char>, ToastType) {
    (t.id@, t.message@, t.toast_type)
}

/// The values of a queue of notifications.
pub open spec fn toast_views(v: Seq<ToastMessage>) -> Seq<(Seq<char>, Seq<char>, ToastType)> {
    v.map_values(|t: ToastMessage| toast_view(t))
}

/// The notifications whose identifier is not `id`, in order.
pub open spec fn without_toast(v: Seq<(Seq<char>, Seq<char>, ToastType)>, id: Seq<char>) -> Seq<
    (Seq<char>, Seq<char>, ToastType),
>
    decreases v.len(),
{
    if v.len() == 0 {
        v
    } else {
        let r = without_toast(v.drop_last(), id);
        if v.last().0 == id {
            r
        } else {
            r.push(v.last())
        }
    }
}

// ---------------------------------------------------------------------------
// The browsing state
// ---------------------------------------------------------------------------

/// What refreshing the file list asks of the storage layer.
#[derive(Clone, Debug)]
pub enum RefreshPlan {
    /// List every file (the query is empty).
    ListAll,
    /// Run the current query again.
    Search(String),
}

/// The state of the browsing view.
pub struct AppState {
    pub search_query: String,
    pub search_results: SearchResult,
    pub selected_file: Option<FileEntry>,
    pub selected_category: Option<String>,
    pub categories: Vec<Category>,
    pub is_loading: bool,
    pub error_message: Option<String>,
    pub toast_messages: Vec<ToastMessage>,
}

/// The result page shown before anything is found: no entries, limit 50.
pub open spec fn empty_results(r: SearchResult) -> bool {
    r.entries@.len() == 0 && r.total_count == 0 && r.offset == 0 && r.limit == 50
}

/// Whether the category tree of a state is the one its results give.
pub open spec fn tree_matches(s: AppState) -> bool {
    cat_views(s.categories@) == category_tree(stored_views(s.search_results.entries@))
}

impl AppState {
    /// The state at start-up, given the first page of all files (or `None`
    /// when listing them failed, in which case the page is empty): no query,
    /// nothing selected, not loading, no error, no notification, and the
    /// category tree of the page.
    pub fn new(initial: Option<SearchResult>) -> (s: Self)
        ensures
            s.search_query@.len() == 0,
            match initial {
                Some(r) => s.search_results == r,
                None => empty_results(s.search_results),
            },
            tree_matches(s),
            s.selected_file is None,
            s.selected_category is None,
            !s.is_loading,
            s.error_message is None,
            s.toast_messages@.len() == 0,
    {
        let search_results = match initial {
            Some(r) => r,
            None => SearchResult { entries: Vec::new(), total_count: 0, offset: 0, limit: 50 },
        };
        let categories = build_category_tree(&search_results);
        AppState {
            search_query: String::new(),
            search_results,
            selected_file: None,
            selected_category: None,
            categories,
            is_loading: false,
            error_message: None,
            toast_messages: Vec::new(),
        }
    }

    /// Starting a search: the query is recorded, loading is on and any
    /// earlier error is cleared; nothing else changes.
    pub fn begin_search(&mut self, query: &str)
        ensures
            final(self).search_query@ == query@,
            final(self).is_loading,
            final(self).error_message is None,
            final(self).search_results == old(self).search_results,
            final(self).categories == old(self).categories,
            final(self).selected_file == old(self).selected_file,
            final(self).selected_category == old(self).selected_category,
            final(self).toast_messages == old(self).toast_messages,
    {
        let mut q = String::new();
        crate::text::push_str(&mut q, query);
        self.search_query = q;
        self.is_loading = true;
        self.error_message = None;
    }

    /// The outcome of a search: on success the results replace the old
    /// ones and the category tree is rebuilt from them; on failure the
    /// error text is kept and the results stay. Loading ends either way.
    pub fn finish_search(&mut self, outcome: Result<SearchResult, String>)
        ensures
            !final(self).is_loading,
            final(self).search_query == old(self).search_query,
            final(self).selected_file == old(self).selected_file,
            final(self).selected_category == old(self).selected_category,
            final(self).toast_messages == old(self).toast_messages,
            match outcome {
                Ok(r) => {
                    &&& final(self).search_results == r
                    &&& tree_matches(*final(self))
                    &&& final(self).error_message == old(self).error_message
                },
                Err(e) => {
                    &&& final(self).search_results == old(self).search_results
                    &&& final(self).categories == old(self).categories
                    &&& final(self).error_message == Some(e)
                },
            },
    {
        match outcome {
            Ok(r) => {
                self.categories = build_category_tree(&r);
                self.search_results = r;
            },
            Err(e) => {
                self.error_message = Some(e);
            },
        }
        self.is_loading = false;
    }

    /// What refreshing the list asks for: every file when the query is
    /// empty, else the current query again.
    pub fn refresh_plan(&self) -> (p: RefreshPlan)
        ensures
            match p {
                RefreshPlan::ListAll => self.search_query@.len() == 0,
                RefreshPlan::Search(q) => self.search_query@.len() > 0 && q@
                    == self.search_query@,
            },
    {
        if self.search_query.as_str().is_empty() {
            RefreshPlan::ListAll
        } else {
            RefreshPlan::Search(self.search_query.clone())
        }
    }

    /// Refreshing with an empty query: the listing replaces the results
    /// (the category tree is left as it was).
    pub fn finish_list_all(&mut self, r: SearchResult)
        ensures
            final(self).search_results == r,
            final(self).categories == old(self).categories,
            final(self).search_query == old(self).search_query,
            final(self).is_loading == old(self).is_loading,
            final(self).error_message == old(self).error_message,
            final(self).selected_category == old(self).selected_category,
            final(self).toast_messages == old(self).toast_messages,
    {
        self.search_results = r;
    }

    /// Queues a notification of the given kind.
    pub fn notify(&mut self, toast_type: ToastType, message: &str)
        ensures
            final(self).toast_messages@.len() == old(self).toast_messages@.len() + 1,
            final(self).toast_messages@.drop_last() == old(self).toast_messages@,
            final(self).toast_messages@.last().message@ == message@,
            final(self).toast_messages@.last().toast_type == toast_type,
            is_uuid_text(final(self).toast_messages@.last().id@),
            final(self).search_results == old(self).search_results,
            final(self).categories == old(self).categories,
            final(self).search_query == old(self).search_query,
            final(self).is_loading == old(self).is_loading,
            final(self).error_message == old(self).error_message,
            final(self).selected_category == old(self).selected_category,
    {
        let t = create_toast(toast_type, message);
        self.toast_messages.push(t);
        assert(self.toast_messages@.drop_last() =~= old(self).toast_messages@);
    }

    /// Queues a success notification.
    pub fn show_success(&mut self, message: &str)
        ensures
            final(self).toast_messages@.drop_last() == old(self).toast_messages@,
            final(self).toast_messages@.len() == old(self).toast_messages@.len() + 1,
            final(self).toast_messages@.last().message@ == message@,
            final(self).toast_messages@.last().toast_type == ToastType::Success,
    {
        self.notify(ToastType::Success, message);
    }

    /// Queues an error notification.
    pub fn show_error(&mut self, message: &str)
        ensures
            final(self).toast_messages@.drop_last() == old(self).toast_messages@,
            final(self).toast_messages@.len() == old(self).toast_messages@.len() + 1,
            final(self).toast_messages@.last().message@ == message@,
            final(self).toast_messages@.last().toast_type == ToastType::Error,
    {
        self.notify(ToastType::Error, message);
    }

    /// Queues an information notification.
    pub fn show_info(&mut self, message: &str)
        ensures
            final(self).toast_messages@.drop_last() == old(self).toast_messages@,
            final(self).toast_messages@.len() == old(self).toast_messages@.len() + 1,
            final(self).toast_messages@.last().message@ == message@,
            final(self).toast_messages@.last().toast_type == ToastType::Info,
    {
        self.notify(ToastType::Info, message);
    }

    /// Queues a warning notification.
    pub fn show_warning(&mut self, message: &str)
        ensures
            final(self).toast_messages@.drop_last() == old(self).toast_messages@,
            final(self).toast_messages@.len() == old(self).toast_messages@.len() + 1,
            final(self).toast_messages@.last().message@ == message@,
            final(self).toast_messages@.last().toast_type == ToastType::Warning,
    {
        self.notify(ToastType::Warning, message);
    }

    /// Closes every notification with identifier `id`; the others keep
    /// their order.
    pub fn dismiss_toast(&mut self, id: &str)
        ensures
            toast_views(final(self).toast_messages@) == without_toast(
                toast_views(old(self).toast_messages@),
                id@,
            ),
    {
        let idc = chars_of(id);
        let mut old_list: Vec<ToastMessage> = Vec::new();
        std::mem::swap(&mut old_list, &mut self.toast_messages);
        let ghost ov = toast_views(old_list@);
        let mut kept: Vec<ToastMessage> = Vec::new();
        let mut rest = old_list;
        let n = rest.len();
        let mut i: usize = 0;
        while rest.len() > 0
            invariant
                i + rest@.len() == n,
                ov.len() == n as nat,
                toast_views(rest@) == ov.skip(i as int),
                toast_views(kept@) == without_toast(ov.take(i as int), idc@),
                idc@ == id@,
            decreases rest.len(),
        {
            let ghost rv = toast_views(rest@);
            let t = rest.remove(0);
            assert(toast_views(rest@) =~= rv.drop_first());
            assert(ov.take(i + 1).drop_last() =~= ov.take(i as int));
            assert(ov.take(i + 1).last() == rv[0]);
            assert(rv[0] == toast_view(t));
            let tid = chars_of(t.id.as_str());
            if !crate::text::starts_with_chars(&tid, &idc) || tid.len() != idc.len() {
                assert(tid@ != idc@) by {
                    if tid@ == idc@ {
                        assert(tid@.take(idc@.len() as int) =~= tid@);
                    }
                }
                let ghost before = toast_views(kept@);
                kept.push(t);
                assert(toast_views(kept@) =~= before.push(toast_view(t)));
            } else {
                assert(tid@.take(idc@.len() as int) =~= tid@);
            }
            i += 1;
        }
        assert(ov.take(n as int) =~= ov);
        self.toast_messages = kept;
    }

    /// The entries shown under the selected category (all of them when
    /// none is selected).
    pub fn get_filtered_files(&self) -> (r: Vec<FileEntry>)
        ensures
            entry_views(r@) == shown_files(
                stored_views(self.search_results.entries@),
                opt_view(self.selected_category),
            ),
    {
        let sel = match &self.selected_category {
            Some(s) => Some(s),
            None => None,
        };
        filter_by_category(&self.search_results.entries, sel)
    }

    /// Clicking a category: selecting it, or clearing the selection when it
    /// was already the selected one.
    pub fn toggle_category(&mut self, id: &str)
        ensures
            opt_view(final(self).selected_category) == (if opt_view(old(self).selected_category)
                == Some(id@) {
                None
            } else {
                Some(id@)
            }),
            final(self).search_results == old(self).search_results,
            final(self).selected_file == old(self).selected_file,
    {
        let idc = chars_of(id);
        let same = match &self.selected_category {
            Some(s) => {
                let sc = chars_of(s.as_str());
                sc.len() == idc.len() && crate::text::starts_with_chars(&sc, &idc)
            },
            None => false,
        };
        proof {
            if let Some(s) = &self.selected_category {
                if s@.len() == id@.len() && crate::text::has_prefix(s@, id@) {
                    assert(s@.take(id@.len() as int) =~= s@);
                }
                if s@ == id@ {
                    assert(s@.take(id@.len() as int) =~= s@);
                }
            }
        }
        if same {
            self.selected_category = None;
        } else {
            let mut c = String::new();
            crate::text::push_str(&mut c, id);
            self.selected_category = Some(c);
        }
    }

    /// "Show all": clears the category selection.
    pub fn show_all(&mut self)
        ensures
            final(self).selected_category is None,
            final(self).search_results == old(self).search_results,
            final(self).selected_file == old(self).selected_file,
    {
        self.selected_category = None;
    }

    /// Selecting a file for preview.
    pub fn select_file(&mut self, file: FileEntry)
        ensures
            final(self).selected_file == Some(file),
            final(self).selected_category == old(self).selected_category,
            final(self).search_results == old(self).search_results,
    {
        self.selected_file = Some(file);
    }

    /// What the status bar shows: the total number of matches, the title of
    /// the selected file and whether a search is running.
    pub fn status_summary(&self) -> (r: (usize, Option<String>, bool))
        ensures
            r.0 == self.search_results.total_count,
            opt_view(r.1) == match self.selected_file {
                Some(f) => Some(f.title@),
                None => None,
            },
            r.2 == self.is_loading,
    {
        let title = match &self.selected_file {
            Some(f) => Some(f.title.clone()),
            None => None,
        };
        (self.search_results.total_count, title, self.is_loading)
    }
}

/// The query that the search box submits: the trimmed text, when the text
/// holds a line break and is not blank; otherwise nothing is submitted.
pub open spec fn submitted_query_spec(text: Seq<char>) -> Option<Seq<char>> {
    if text.contains('\n') && !is_blank(text) {
        Some(crate::text::trim(text))
    } else {
        None
    }
}

/// The query that the search box submits as the user types: a line break
/// (Enter) submits the trimmed text unless it is blank.
pub fn submitted_query(text: &str) -> (r: Option<String>)
    ensures
        opt_view(r) == submitted_query_spec(text@),
{
    let cs = chars_of(text);
    let mut has_newline = false;
    let mut i: usize = 0;
    while i < cs.len()
        invariant
            i <= cs.len(),
            has_newline == cs@.take(i as int).contains('\n'),
        decreases cs.len() - i,
    {
        if cs[i] == '\n' {
            has_newline = true;
            assert(cs@.take(i + 1)[i as int] == '\n');
        }
        assert(cs@.take(i + 1) =~= cs@.take(i as int).push(cs@[i as int]));
        i += 1;
    }
    assert(cs@.take(cs.len() as int) =~= cs@);
    if !has_newline {
        return None;
    }
    let t = crate::text::trim_chars(&cs);
    if t.len() == 0 {
        None
    } else {
        Some(crate::text::string_of(&t))
    }
}

// ---------------------------------------------------------------------------
// Routes
// ---------------------------------------------------------------------------

/// The pages of the browsing front end.
#[derive(Clone, Debug, PartialEq, Eq)]
pub enum Route {
    Main,
    Import,
    Edit(String),
    Settings,
}

/// The value of a route.
pub enum RouteView {
    Main,
    Import,
    Edit(Seq<char>),
    Settings,
}

/// The value of a route.
pub open spec fn route_view(r: Route) -> RouteView {
    match r {
        Route::Main => RouteView::Main,
        Route::Import => RouteView::Import,
        Route::Edit(id) => RouteView::Edit(id@),
        Route::Settings => RouteView::Settings,
    }
}

/// The breadcrumb trail of a page: the home page first, then the page
/// itself unless it is the home page.
pub open spec fn breadcrumbs_spec(r: RouteView) -> Seq<(Seq<char>, RouteView)> {
    match r {
        RouteView::Main => seq![("主页"@, RouteView::Main)],
        RouteView::Import => seq![("主页"@, RouteView::Main), ("导入文件"@, RouteView::Import)],
        RouteView::Edit(id) => seq![("主页"@, RouteView::Main), ("编辑文件"@, RouteView::Edit(id))],
        RouteView::Settings => seq![("主页"@, RouteView::Main), ("设置"@, RouteView::Settings)],
    }
}

/// The values of a breadcrumb trail.
pub open spec fn crumb_views(v: Seq<(&'static str, Route)>) -> Seq<(Seq<char>, RouteView)> {
    v.map_values(|c: (&'static str, Route)| (c.0@, route_view(c.1)))
}

/// The breadcrumb trail of a page; every crumb but the last links back.
pub fn breadcrumbs(route: &Route) -> (r: Vec<(&'static str, Route)>)
    ensures
        crumb_views(r@) == breadcrumbs_spec(route_view(*route)),
{
    let r = match route {
        Route::Main => vec![("主页", Route::Main)],
        Route::Import => vec![("主页", Route::Main), ("导入文件", Route::Import)],
        Route::Edit(id) => vec![("主页", Route::Main), ("编辑文件", Route::Edit(id.clone()))],
        Route::Settings => vec![("主页", Route::Main), ("设置", Route::Settings)],
    };
    assert(crumb_views(r@) =~= breadcrumbs_spec(route_view(*route)));
    r
}

} // verus!

verus! {

/// After dismissing an identifier no notification with it is left.
proof fn lemma_without_toast_gone(v: Seq<(Seq<char>, Seq<char>, ToastType)>, id: Seq<char>)
    ensures
        forall|k: int| 0 <= k < without_toast(v, id).len() ==> #[trigger] without_toast(v, id)[k].0 != id,
    decreases v.len(),
{
    if v.len() > 0 {
        lemma_without_toast_gone(v.drop_last(), id);
        let r = without_toast(v.drop_last(), id);
        let w = without_toast(v, id);
        assert forall|k: int| 0 <= k < w.len() implies #[trigger] w[k].0 != id by {
            if k < r.len() {
                assert(w[k] == r[k]);
            }
        }
    }
}

/// A notification that was just queued and is then dismissed is gone, and
/// the queue is what dismissing that identifier from the earlier queue
/// gives: the other notifications stay, in order.
pub proof fn lemma_dismiss_after_notify(v: Seq<(Seq<char>, Seq<char>, ToastType)>, t: (Seq<char>, Seq<char>, ToastType))
    ensures
        without_toast(v.push(t), t.0) == without_toast(v, t.0),
        forall|k: int| 0 <= k < without_toast(v.push(t), t.0).len() ==> #[trigger] without_toast(v.push(t), t.0)[k].0 != t.0,
{
    assert(v.push(t).drop_last() =~= v);
    assert(without_toast(v.push(t), t.0) == without_toast(v, t.0));
    lemma_without_toast_gone(v, t.0);
    let w = without_toast(v.push(t), t.0);
    assert forall|k: int| 0 <= k < w.len() implies #[trigger] w[k].0 != t.0 by {
        assert(w[k] == without_toast(v, t.0)[k]);
    }
}

/// Dismissing an identifier that no notification has leaves the queue as
/// it is.
pub proof fn lemma_dismiss_unknown(v: Seq<(Seq<char>, Seq<char>, ToastType)>, id: Seq<char>)
    requires
        forall|k: int| 0 <= k < v.len() ==> #[trigger] v[k].0 != id,
    ensures
        without_toast(v, id) == v,
    decreases v.len(),
{
    if v.len() > 0 {
        lemma_dismiss_unknown(v.drop_last(), id);
        assert(v.drop_last().push(v.last()) =~= v);
    }
}

} // verus!
