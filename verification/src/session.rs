//! The desktop window's session: the list of files on show, the selected
//! file, the category tree's expanded and selected nodes, the file being
//! edited, and the handling of each event the window raises, which updates
//! the session and says what the window is to do.

use vstd::prelude::*;

use crate::library::{copy_stored, opt_view, SearchResult, StoredFile, StoredView};
use crate::metadata::{dialog_check, dialog_edit_metadata, form_error_text, DialogFields, ImportMetadata, MetaView};
use crate::query::SearchOptions;
use crate::settings::{ConfigValues, ConfigValuesView};
use crate::text::{chars_of, decimal, has_prefix, parse_usize, parse_usize_spec, push_decimal, push_str, str_eq, string_of, views};

verus! {

broadcast use vstd::string::group_string_axioms;

// ---------------------------------------------------------------------------
// The category tree's state
// ---------------------------------------------------------------------------

/// The expanded nodes and the selected node of the category tree.
#[derive(Clone, Debug)]
pub struct CategoryTreeState {
    pub expanded_nodes: Vec<String>,
    pub selected_category: Option<String>,
}

impl CategoryTreeState {
    /// The expanded nodes, as a set.
    pub open spec fn expanded(&self) -> Set<Seq<char>> {
        views(self.expanded_nodes@).to_set()
    }

    /// Nothing expanded, nothing selected.
    pub fn new() -> (r: Self)
        ensures
            r.expanded() == Set::<Seq<char>>::empty(),
            r.selected_category is None,
    {
        let r = CategoryTreeState { expanded_nodes: Vec::new(), selected_category: None };
        assert(views(r.expanded_nodes@).to_set() =~= Set::<Seq<char>>::empty());
        r
    }

    /// Whether a node is expanded.
    pub fn is_expanded(&self, category: &str) -> (r: bool)
        ensures
            r == self.expanded().contains(category@),
    {
        let mut i: usize = 0;
        while i < self.expanded_nodes.len()
            invariant
                i <= self.expanded_nodes.len(),
                forall|k: int| 0 <= k < i ==> self.expanded_nodes@[k]@ != category@,
            decreases self.expanded_nodes.len() - i,
        {
            if str_eq(self.expanded_nodes[i].as_str(), category) {
                assert(views(self.expanded_nodes@)[i as int] == category@);
                return true;
            }
            i += 1;
        }
        assert(!views(self.expanded_nodes@).contains(category@)) by {
            if views(self.expanded_nodes@).contains(category@) {
                let k = choose|k: int| 0 <= k < views(self.expanded_nodes@).len() && views(self.expanded_nodes@)[k] == category@;
                assert(self.expanded_nodes@[k]@ == category@);
            }
        }
        false
    }

    /// Expands a node.
    pub fn expand_category(&mut self, category: String)
        ensures
            final(self).expanded() == old(self).expanded().insert(category@),
            final(self).selected_category == old(self).selected_category,
    {
        if !self.is_expanded(category.as_str()) {
            let ghost before = views(self.expanded_nodes@);
            self.expanded_nodes.push(category);
            assert(views(self.expanded_nodes@) =~= before.push(category@));
            assert(views(self.expanded_nodes@).to_set() =~= before.to_set().insert(category@)) by {
                assert forall|x: Seq<char>| views(self.expanded_nodes@).contains(x) <==> (before.contains(x) || x == category@) by {
                    if views(self.expanded_nodes@).contains(x) {
                        let k = choose|k: int| 0 <= k < views(self.expanded_nodes@).len() && views(self.expanded_nodes@)[k] == x;
                        if k < before.len() {
                            assert(before[k] == x);
                        }
                    }
                    if before.contains(x) {
                        let k = choose|k: int| 0 <= k < before.len() && before[k] == x;
                        assert(views(self.expanded_nodes@)[k] == x);
                    }
                    if x == category@ {
                        assert(views(self.expanded_nodes@)[before.len() as int] == x);
                    }
                }
            }
        } else {
            assert(self.expanded().insert(category@) =~= self.expanded());
        }
    }

    /// Collapses a node.
    pub fn collapse_category(&mut self, category: &str)
        ensures
            final(self).expanded() == old(self).expanded().remove(category@),
            final(self).selected_category == old(self).selected_category,
    {
        let ghost old_v = views(self.expanded_nodes@);
        let mut kept: Vec<String> = Vec::new();
        let mut i: usize = 0;
        while i < self.expanded_nodes.len()
            invariant
                i <= self.expanded_nodes.len(),
                old_v == views(self.expanded_nodes@),
                forall|x: Seq<char>| #[trigger] views(kept@).contains(x) <==> (old_v.take(i as int).contains(x) && x != category@),
            decreases self.expanded_nodes.len() - i,
        {
            let ghost before = views(kept@);
            if !str_eq(self.expanded_nodes[i].as_str(), category) {
                kept.push(self.expanded_nodes[i].clone());
                assert(views(kept@) =~= before.push(self.expanded_nodes@[i as int]@));
            }
            assert forall|x: Seq<char>| #[trigger] views(kept@).contains(x) <==> (old_v.take(i + 1).contains(x) && x != category@) by {
                assert(old_v.take(i + 1) =~= old_v.take(i as int).push(old_v[i as int]));
                if views(kept@).contains(x) {
                    let k = choose|k: int| 0 <= k < views(kept@).len() && views(kept@)[k] == x;
                    if k < before.len() {
                        assert(before[k] == x);
                        assert(before.contains(x));
                        let t0 = old_v.take(i as int);
                        let j = choose|j: int| 0 <= j < t0.len() && t0[j] == x;
                        assert(old_v.take(i + 1)[j] == x);
                    } else {
                        assert(old_v.take(i + 1)[i as int] == x);
                    }
                }
                if old_v.take(i + 1).contains(x) && x != category@ {
                    let t1 = old_v.take(i + 1);
                    let j = choose|j: int| 0 <= j < t1.len() && t1[j] == x;
                    if j < i {
                        assert(old_v.take(i as int)[j] == x);
                        assert(before.contains(x));
                        let k = choose|k: int| 0 <= k < before.len() && before[k] == x;
                        assert(views(kept@)[k] == x);
                    } else {
                        assert(views(kept@)[views(kept@).len() - 1] == x);
                    }
                }
            }
            i += 1;
        }
        assert(old_v.take(old_v.len() as int) =~= old_v);
        self.expanded_nodes = kept;
        assert(self.expanded() =~= old(self).expanded().remove(category@));
    }

    /// Selects a node (or clears the selection).
    pub fn select_category(&mut self, category: Option<String>)
        ensures
            final(self).expanded() == old(self).expanded(),
            final(self).selected_category == category,
    {
        self.selected_category = category;
    }
}

// ---------------------------------------------------------------------------
// The window's state
// ---------------------------------------------------------------------------

/// The files on show, the selected file, the last query, the category
/// tree's state and whether a task is running.
#[derive(Clone, Debug)]
pub struct AppState {
    pub current_files: Vec<StoredFile>,
    pub selected_file: Option<StoredFile>,
    pub current_query: String,
    pub category_tree: CategoryTreeState,
    pub is_loading: bool,
}

/// The values of a sequence of stored files.
pub open spec fn stored_file_views(v: Seq<StoredFile>) -> Seq<StoredView> {
    v.map_values(|f: StoredFile| f@)
}

/// The view of an optional stored file.
pub open spec fn opt_file(o: Option<StoredFile>) -> Option<StoredView> {
    match o {
        Some(f) => Some(f@),
        None => None,
    }
}

/// The position of the first file with the given identifier.
pub open spec fn first_with_id(files: Seq<StoredView>, id: Seq<char>) -> Option<int>
    decreases files.len(),
{
    if files.len() == 0 {
        None
    } else {
        match first_with_id(files.drop_last(), id) {
            Some(i) => Some(i),
            None => if files.last().id == id {
                Some(files.len() - 1)
            } else {
                None
            },
        }
    }
}

/// The file with the given identifier, if any.
pub open spec fn file_with_id(files: Seq<StoredView>, id: Seq<char>) -> Option<StoredView> {
    match first_with_id(files, id) {
        Some(i) => Some(files[i]),
        None => None,
    }
}

/// The position of the first file with the given identifier.
pub(crate) fn find_file(files: &Vec<StoredFile>, id: &str) -> (r: Option<usize>)
    ensures
        match r {
            Some(i) => first_with_id(stored_file_views(files@), id@) == Some(i as int) && i < files@.len(),
            None => first_with_id(stored_file_views(files@), id@) is None,
        },
{
    let ghost fs = stored_file_views(files@);
    let mut i: usize = 0;
    while i < files.len()
        invariant
            i <= files.len(),
            fs == stored_file_views(files@),
            first_with_id(fs.take(i as int), id@) is None,
        decreases files.len() - i,
    {
        assert(fs.take(i + 1).drop_last() =~= fs.take(i as int));
        if str_eq(files[i].id.as_str(), id) {
            proof {
                lemma_first_with_id_prefix(fs, id@, i as int);
            }
            return Some(i);
        }
        i += 1;
    }
    assert(fs.take(files.len() as int) =~= fs);
    None
}

/// The first match in a prefix that ends with a match, after no match
/// before it, is that last position, in the whole sequence too.
proof fn lemma_first_with_id_prefix(fs: Seq<StoredView>, id: Seq<char>, i: int)
    requires
        0 <= i < fs.len(),
        first_with_id(fs.take(i), id) is None,
        fs[i].id == id,
    ensures
        first_with_id(fs, id) == Some(i),
    decreases fs.len(),
{
    assert(fs.take(i + 1).drop_last() =~= fs.take(i));
    assert(first_with_id(fs.take(i + 1), id) == Some(i));
    if i + 1 < fs.len() {
        assert(fs.drop_last().take(i) =~= fs.take(i));
        lemma_first_with_id_prefix(fs.drop_last(), id, i);
    } else {
        assert(fs.take(i + 1) =~= fs);
    }
}

impl AppState {
    /// No files, nothing selected, no query, the tree collapsed, idle.
    pub fn new() -> (r: Self)
        ensures
            r.current_files@.len() == 0,
            r.selected_file is None,
            r.current_query@.len() == 0,
            r.category_tree.expanded() == Set::<Seq<char>>::empty(),
            r.category_tree.selected_category is None,
            !r.is_loading,
    {
        AppState {
            current_files: Vec::new(),
            selected_file: None,
            current_query: String::new(),
            category_tree: CategoryTreeState::new(),
            is_loading: false,
        }
    }

    /// Replaces the files on show.
    pub fn set_files(&mut self, files: Vec<StoredFile>)
        ensures
            final(self).current_files == files,
            final(self).selected_file == old(self).selected_file,
            final(self).current_query == old(self).current_query,
            final(self).category_tree == old(self).category_tree,
            final(self).is_loading == old(self).is_loading,
    {
        self.current_files = files;
    }

    /// The files on show.
    pub fn get_files(&self) -> (r: &Vec<StoredFile>)
        ensures
            r == &self.current_files,
    {
        &self.current_files
    }

    /// Selects the first file on show with the given identifier (none when
    /// there is no such file).
    pub fn select_file(&mut self, file_id: &str)
        ensures
            opt_file(final(self).selected_file) == file_with_id(
                stored_file_views(old(self).current_files@),
                file_id@,
            ),
            final(self).current_files == old(self).current_files,
            final(self).current_query == old(self).current_query,
            final(self).category_tree == old(self).category_tree,
            final(self).is_loading == old(self).is_loading,
    {
        self.selected_file = match find_file(&self.current_files, file_id) {
            Some(i) => Some(copy_stored(&self.current_files[i])),
            None => None,
        };
    }

    /// Marks whether a task is running.
    pub fn set_loading(&mut self, loading: bool)
        ensures
            final(self).is_loading == loading,
            final(self).current_files == old(self).current_files,
            final(self).selected_file == old(self).selected_file,
            final(self).current_query == old(self).current_query,
            final(self).category_tree == old(self).category_tree,
    {
        self.is_loading = loading;
    }

    /// Expands a node of the category tree.
    pub fn expand_category(&mut self, category: String)
        ensures
            final(self).category_tree.expanded() == old(self).category_tree.expanded().insert(category@),
            final(self).category_tree.selected_category == old(self).category_tree.selected_category,
            final(self).current_files == old(self).current_files,
            final(self).selected_file == old(self).selected_file,
            final(self).current_query == old(self).current_query,
            final(self).is_loading == old(self).is_loading,
    {
        self.category_tree.expand_category(category);
    }

    /// Collapses a node of the category tree.
    pub fn collapse_category(&mut self, category: &str)
        ensures
            final(self).category_tree.expanded() == old(self).category_tree.expanded().remove(category@),
            final(self).category_tree.selected_category == old(self).category_tree.selected_category,
            final(self).current_files == old(self).current_files,
            final(self).selected_file == old(self).selected_file,
            final(self).current_query == old(self).current_query,
            final(self).is_loading == old(self).is_loading,
    {
        self.category_tree.collapse_category(category);
    }

    /// Selects a node of the category tree (or clears the selection).
    pub fn select_category(&mut self, category: Option<String>)
        ensures
            final(self).category_tree.selected_category == category,
            final(self).category_tree.expanded() == old(self).category_tree.expanded(),
            final(self).current_files == old(self).current_files,
            final(self).selected_file == old(self).selected_file,
            final(self).current_query == old(self).current_query,
            final(self).is_loading == old(self).is_loading,
    {
        self.category_tree.select_category(category);
    }
}

} // verus!

verus! {

// ---------------------------------------------------------------------------
// Events and actions
// ---------------------------------------------------------------------------

/// What happens in the window: a request from the user, or the outcome of
/// a task that the window started.
#[derive(Clone, Debug)]
pub enum AppEvent {
    SearchQuery(String),
    AdvancedSearch(SearchOptions),
    SearchResults(SearchResult),
    FileSelected(String),
    FileLoaded(StoredFile),
    FileImported(StoredFile),
    FileOpen(String),
    FileEdit(String),
    FileImport(String),
    /// Save the file being edited, with the edit dialog's fields.
    SaveFile(DialogFields),
    DeleteFile(String),
    CancelEdit,
    OpenFile(String),
    EditFile(String),
    CopyFilePath(String),
    ShowInFolder(String),
    CategoryExpand(String),
    CategorySelect(String),
    LoadingStart,
    LoadingEnd,
    Error(String),
    ConfigUpdated(String),
    WindowResize(i32, i32),
    RefreshView,
    OpenSettings,
    OpenLogViewer,
    ShowStatistics,
    OpenAdvancedSearch,
    ShowAdvancedSearchDialog,
    OpenCategoryManager,
    CategoryCreated(String),
    CategoryUpdated(String),
    CategoryDeleted(String),
    FocusSearchBar,
    EditSelectedFile,
    DeleteSelectedFile,
}

/// What the window is to do after an event.
#[derive(Clone, Debug)]
pub enum Action {
    /// Show (or stop showing) that a task is running.
    Loading(bool),
    /// Start a search with the query.
    Search(String),
    /// Start an advanced search with the options.
    AdvancedSearch(SearchOptions),
    /// Show the session's files in the list.
    ShowFiles,
    /// Mark the row at the position as selected and count one selected file.
    SelectRow(usize),
    /// Show a message in the status bar for some milliseconds.
    Status(String, u32),
    /// Show an error message in the status bar until replaced.
    ErrorStatus(String),
    /// Show a message in a dialog.
    Alert(String),
    /// Start loading the file's details.
    LoadFile(String),
    /// Start importing the file at the path.
    ImportFile(String),
    /// Start a search restricted to the category.
    CategorySearch(String),
    /// Raise a search event with the query.
    EmitSearch(String),
    /// Raise the end-of-loading event (from a task).
    EmitLoadingEnd,
    /// Raise the event that opens the edit dialog for the file (from a task).
    EmitFileEdit(String),
    /// Raise the refresh event.
    EmitRefresh,
    /// Open the file with its program; report a failure as an error event.
    OpenPath(String),
    /// Open the folder of the file; report a failure as an error event.
    OpenFolder(String),
    /// Copy the path to the clipboard; report a failure as an error event.
    CopyPath(String),
    OpenSettings,
    OpenLogViewer,
    ShowStatistics,
    OpenAdvancedSearch,
    OpenCategoryManager,
    FocusSearchBar,
    /// Fill the edit dialog with the file and show it.
    EditForm(StoredFile),
    /// Show the file's details.
    ShowDetails(StoredFile),
    /// Show that the file was imported.
    ImportSucceeded(StoredFile),
    /// Start loading the file for editing.
    OpenEditDialog(String),
    /// Start deleting the file.
    DeleteFile(String),
    /// Close the edit dialog.
    CloseEditDialog,
    /// Start saving the metadata of the file.
    SaveEdit(String, ImportMetadata),
    /// Ask the question; on yes, start deleting the file and show the status.
    ConfirmDelete(String, String, String),
    /// Load the configuration at the path again.
    ReloadConfig(String),
}

/// The value of an `Action`.
pub enum ActionView {
    Loading(bool),
    Search(Seq<char>),
    AdvancedSearch(SearchOptions),
    ShowFiles,
    SelectRow(nat),
    Status(Seq<char>, u32),
    ErrorStatus(Seq<char>),
    Alert(Seq<char>),
    LoadFile(Seq<char>),
    ImportFile(Seq<char>),
    CategorySearch(Seq<char>),
    EmitSearch(Seq<char>),
    EmitLoadingEnd,
    EmitFileEdit(Seq<char>),
    EmitRefresh,
    OpenPath(Seq<char>),
    OpenFolder(Seq<char>),
    CopyPath(Seq<char>),
    OpenSettings,
    OpenLogViewer,
    ShowStatistics,
    OpenAdvancedSearch,
    OpenCategoryManager,
    FocusSearchBar,
    EditForm(StoredView),
    ShowDetails(StoredView),
    ImportSucceeded(StoredView),
    OpenEditDialog(Seq<char>),
    DeleteFile(Seq<char>),
    CloseEditDialog,
    SaveEdit(Seq<char>, MetaView),
    ConfirmDelete(Seq<char>, Seq<char>, Seq<char>),
    ReloadConfig(Seq<char>),
}

impl View for Action {
    type V = ActionView;

    open spec fn view(&self) -> ActionView {
        match self {
            Action::Loading(b) => ActionView::Loading(*b),
            Action::Search(q) => ActionView::Search(q@),
            Action::AdvancedSearch(o) => ActionView::AdvancedSearch(*o),
            Action::ShowFiles => ActionView::ShowFiles,
            Action::SelectRow(i) => ActionView::SelectRow(*i as nat),
            Action::Status(m, ms) => ActionView::Status(m@, *ms),
            Action::ErrorStatus(m) => ActionView::ErrorStatus(m@),
            Action::Alert(m) => ActionView::Alert(m@),
            Action::LoadFile(id) => ActionView::LoadFile(id@),
            Action::ImportFile(p) => ActionView::ImportFile(p@),
            Action::CategorySearch(p) => ActionView::CategorySearch(p@),
            Action::EmitSearch(q) => ActionView::EmitSearch(q@),
            Action::EmitLoadingEnd => ActionView::EmitLoadingEnd,
            Action::EmitFileEdit(id) => ActionView::EmitFileEdit(id@),
            Action::EmitRefresh => ActionView::EmitRefresh,
            Action::OpenPath(p) => ActionView::OpenPath(p@),
            Action::OpenFolder(p) => ActionView::OpenFolder(p@),
            Action::CopyPath(p) => ActionView::CopyPath(p@),
            Action::OpenSettings => ActionView::OpenSettings,
            Action::OpenLogViewer => ActionView::OpenLogViewer,
            Action::ShowStatistics => ActionView::ShowStatistics,
            Action::OpenAdvancedSearch => ActionView::OpenAdvancedSearch,
            Action::OpenCategoryManager => ActionView::OpenCategoryManager,
            Action::FocusSearchBar => ActionView::FocusSearchBar,
            Action::EditForm(f) => ActionView::EditForm(f@),
            Action::ShowDetails(f) => ActionView::ShowDetails(f@),
            Action::ImportSucceeded(f) => ActionView::ImportSucceeded(f@),
            Action::OpenEditDialog(id) => ActionView::OpenEditDialog(id@),
            Action::DeleteFile(id) => ActionView::DeleteFile(id@),
            Action::CloseEditDialog => ActionView::CloseEditDialog,
            Action::SaveEdit(id, m) => ActionView::SaveEdit(id@, m@),
            Action::ConfirmDelete(id, q, s) => ActionView::ConfirmDelete(id@, q@, s@),
            Action::ReloadConfig(p) => ActionView::ReloadConfig(p@),
        }
    }
}

/// The values of a sequence of actions.
pub open spec fn action_views(v: Seq<Action>) -> Seq<ActionView> {
    v.map_values(|a: Action| a@)
}

/// The window's session: its state, the file shown in the preview, the
/// file being edited and the configuration in use (once one is loaded).
#[derive(Clone, Debug)]
pub struct App {
    pub state: AppState,
    pub preview_file: Option<StoredFile>,
    pub editing_file_id: Option<String>,
    pub config: Option<ConfigValues>,
}

/// The value of an `App`.
#[verifier::ext_equal]
pub struct SessionView {
    pub files: Seq<StoredView>,
    pub selected: Option<StoredView>,
    pub query: Seq<char>,
    pub expanded: Set<Seq<char>>,
    pub selected_category: Option<Seq<char>>,
    pub loading: bool,
    pub preview: Option<StoredView>,
    pub editing: Option<Seq<char>>,
    pub config: Option<ConfigValuesView>,
}

impl View for App {
    type V = SessionView;

    open spec fn view(&self) -> SessionView {
        SessionView {
            files: stored_file_views(self.state.current_files@),
            selected: opt_file(self.state.selected_file),
            query: self.state.current_query@,
            expanded: self.state.category_tree.expanded(),
            selected_category: opt_view(self.state.category_tree.selected_category),
            loading: self.state.is_loading,
            preview: opt_file(self.preview_file),
            editing: opt_view(self.editing_file_id),
            config: match self.config {
                Some(c) => Some(c@),
                None => None,
            },
        }
    }
}

/// The name of a configuration file as the status bar shows it: the last
/// component of its path, or nothing.
pub open spec fn config_file_name(path: Seq<char>) -> Seq<char> {
    match crate::paths::path_file_name(path) {
        Some(n) => n,
        None => Seq::empty(),
    }
}

/// What the end of reloading the configuration does: on success the new
/// configuration is in use, a status message names the file for 3 seconds
/// and the view is refreshed; on failure the session is unchanged and the
/// error is shown for 5 seconds.
pub open spec fn config_step(s: SessionView, path: Seq<char>, outcome: Result<ConfigValuesView, Seq<char>>) -> (SessionView, Seq<ActionView>) {
    match outcome {
        Ok(c) => (
            SessionView { config: Some(c), ..s },
            seq![ActionView::Status(quoted("✅ Config loaded: "@, config_file_name(path), ""@), 3000), ActionView::EmitRefresh],
        ),
        Err(e) => (s, seq![ActionView::Status(quoted("❌ Failed to reload config: "@, e, ""@), 5000)]),
    }
}

/// The file a reference names: `index:N` is the file at position N of the
/// list, anything else a file identifier.
pub open spec fn file_ref_index(files: Seq<StoredView>, r: Seq<char>) -> Option<int> {
    if has_prefix(r, "index:"@) {
        match parse_usize_spec(r.skip(6)) {
            Some(i) => if i < files.len() {
                Some(i as int)
            } else {
                None
            },
            None => None,
        }
    } else {
        first_with_id(files, r)
    }
}

/// A message with a number in it.
pub open spec fn counted(before: Seq<char>, n: nat, after: Seq<char>) -> Seq<char> {
    before + decimal(n) + after
}

/// A message with a text in it.
pub open spec fn quoted(before: Seq<char>, s: Seq<char>, after: Seq<char>) -> Seq<char> {
    before + s + after
}

/// The name shown while a file is imported: its file name, or "file".
pub open spec fn import_name(path: Seq<char>) -> Seq<char> {
    match crate::paths::path_file_name(path) {
        Some(n) => n,
        None => "file"@,
    }
}

/// What an event does to the session and what the window is to do, for the
/// events that act on a file reference.
pub open spec fn step_file_ref(s: SessionView, e: AppEvent) -> (SessionView, Seq<ActionView>) {
    let idx = |r: String| file_ref_index(s.files, r@);
    match e {
        AppEvent::OpenFile(r) => match idx(r) {
            Some(i) => (s, seq![ActionView::Status(quoted("📄 Opening: "@, s.files[i].title, ""@), 1500), ActionView::OpenPath(s.files[i].path)]),
            None => (s, seq![]),
        },
        AppEvent::EditFile(r) => match idx(r) {
            Some(i) => (s, seq![ActionView::EmitFileEdit(s.files[i].id)]),
            None => (s, seq![]),
        },
        AppEvent::CopyFilePath(r) => match idx(r) {
            Some(i) => (s, seq![ActionView::CopyPath(s.files[i].path)]),
            None => (s, seq![]),
        },
        AppEvent::ShowInFolder(r) => match idx(r) {
            Some(i) => (s, seq![ActionView::Status(quoted("📁 Opening folder: "@, s.files[i].title, ""@), 1500), ActionView::OpenFolder(s.files[i].path)]),
            None => (s, seq![]),
        },
        AppEvent::DeleteFile(r) => if r@ == "editing"@ && s.editing is Some {
            (SessionView { editing: None, ..s }, seq![ActionView::DeleteFile(s.editing->0), ActionView::CloseEditDialog, ActionView::Status("🗑️ Deleting file..."@, 2000)])
        } else {
            match idx(r) {
                Some(i) => (s, seq![ActionView::DeleteFile(s.files[i].id), ActionView::Status(quoted("🗑️ Deleting: "@, s.files[i].title, ""@), 2000)]),
                None => (s, seq![]),
            }
        },
        _ => (s, seq![]),
    }
}

/// What selecting a file does: `index:N` shows the file at that position
/// (when there is one) and marks its row; any other reference selects the
/// file with that identifier (or nothing); its details are loaded either
/// way.
pub open spec fn step_select(s: SessionView, id: Seq<char>) -> (SessionView, Seq<ActionView>) {
    if has_prefix(id, "index:"@) {
        match parse_usize_spec(id.skip(6)) {
            Some(i) => if i < s.files.len() {
                (
                    SessionView { selected: Some(s.files[i as int]), preview: Some(s.files[i as int]), ..s },
                    seq![ActionView::SelectRow(i as nat), ActionView::LoadFile(id)],
                )
            } else {
                (s, seq![ActionView::LoadFile(id)])
            },
            None => (s, seq![ActionView::LoadFile(id)]),
        }
    } else {
        (SessionView { selected: file_with_id(s.files, id), ..s }, seq![ActionView::LoadFile(id)])
    }
}

/// What an event does to the session and what the window is to do.
pub open spec fn step(s: SessionView, e: AppEvent) -> (SessionView, Seq<ActionView>) {
    match e {
        AppEvent::SearchQuery(q) => (SessionView { loading: true, ..s }, seq![ActionView::Loading(true), ActionView::Search(q@)]),
        AppEvent::AdvancedSearch(o) => (SessionView { loading: true, ..s }, seq![ActionView::Loading(true), ActionView::AdvancedSearch(o)]),
        AppEvent::SearchResults(r) => {
            let n = r.entries@.len();
            (
                SessionView { loading: false, files: stored_file_views(r.entries@), ..s },
                seq![
                    ActionView::Loading(false),
                    ActionView::ShowFiles,
                    ActionView::Status(counted("✅ Loaded "@, n, " files"@), 2000),
                    if n == 0 {
                        ActionView::Status("⚠️ No results found"@, 3000)
                    } else {
                        ActionView::Status(counted("✅ Found "@, n, " results"@), 2000)
                    },
                ],
            )
        },
        AppEvent::FileSelected(id) => step_select(s, id@),
        AppEvent::FileLoaded(f) => if s.editing == Some(f.id@) {
            (s, seq![ActionView::EditForm(f@), ActionView::Status(quoted("✏️ Editing: "@, f.title@, ""@), 2000)])
        } else {
            (SessionView { preview: Some(f@), selected: Some(f@), loading: false, ..s }, seq![ActionView::ShowDetails(f@)])
        },
        AppEvent::FileImported(f) => (s, seq![ActionView::ImportSucceeded(f@), ActionView::Status(quoted("✅ Imported: "@, f.title@, ""@), 3000)]),
        AppEvent::FileOpen(_) => match s.preview {
            Some(p) => (s, seq![ActionView::OpenPath(p.path)]),
            None => (s, seq![]),
        },
        AppEvent::FileEdit(id) => (SessionView { editing: Some(id@), ..s }, seq![ActionView::OpenEditDialog(id@)]),
        AppEvent::FileImport(p) => (
            SessionView { loading: true, ..s },
            seq![ActionView::Loading(true), ActionView::Status(quoted("📥 Importing: "@, import_name(p@), ""@), 1000), ActionView::ImportFile(p@)],
        ),
        AppEvent::SaveFile(fields) => match s.editing {
            Some(id) => match dialog_check(fields@) {
                Ok(_) => (
                    SessionView { editing: None, ..s },
                    seq![ActionView::SaveEdit(id, dialog_edit_metadata(fields@)), ActionView::CloseEditDialog, ActionView::Status("💾 Saving file changes..."@, 2000)],
                ),
                Err(err) => (s, seq![ActionView::Status(quoted("❌ Validation error: "@, form_error_text(err), ""@), 3000)]),
            },
            None => (s, seq![]),
        },
        AppEvent::CancelEdit => (SessionView { editing: None, ..s }, seq![ActionView::CloseEditDialog, ActionView::Status("📄 Edit cancelled"@, 1500)]),
        AppEvent::CategoryExpand(p) => (SessionView { expanded: s.expanded.insert(p@), ..s }, seq![]),
        AppEvent::CategorySelect(p) => (
            SessionView { selected_category: Some(p@), loading: true, ..s },
            seq![ActionView::EmitSearch(quoted("category:"@, p@, ""@)), ActionView::Loading(true), ActionView::Status(quoted("📋 Filtering by: "@, p@, ""@), 1000), ActionView::CategorySearch(p@)],
        ),
        AppEvent::LoadingStart => (SessionView { loading: true, ..s }, seq![ActionView::Loading(true)]),
        AppEvent::LoadingEnd => (SessionView { loading: false, ..s }, seq![ActionView::Loading(false)]),
        AppEvent::RefreshView => (s, seq![ActionView::EmitLoadingEnd]),
        AppEvent::Error(m) => (
            SessionView { loading: false, ..s },
            seq![ActionView::Loading(false), ActionView::ErrorStatus(quoted("❌ Error: "@, m@, ""@)), ActionView::Alert(quoted("Error: "@, m@, ""@))],
        ),
        AppEvent::OpenSettings => (s, seq![ActionView::OpenSettings]),
        AppEvent::OpenLogViewer => (s, seq![ActionView::OpenLogViewer]),
        AppEvent::ShowStatistics => (s, seq![ActionView::ShowStatistics]),
        AppEvent::OpenAdvancedSearch => (s, seq![ActionView::OpenAdvancedSearch]),
        AppEvent::OpenCategoryManager => (s, seq![ActionView::OpenCategoryManager]),
        AppEvent::FocusSearchBar => (s, seq![ActionView::FocusSearchBar]),
        AppEvent::EditSelectedFile => match s.selected {
            Some(f) => (SessionView { editing: Some(f.id), ..s }, seq![ActionView::OpenEditDialog(f.id)]),
            None => (s, seq![ActionView::Status("⚠️ No file selected"@, 2000)]),
        },
        AppEvent::DeleteSelectedFile => match s.selected {
            Some(f) => (s, seq![ActionView::ConfirmDelete(f.id, quoted("Are you sure you want to delete '"@, f.title, "'?"@), quoted("🗑️ Deleting: "@, f.title, ""@))]),
            None => (s, seq![ActionView::Status("⚠️ No file selected"@, 2000)]),
        },
        AppEvent::CategoryCreated(n) => (s, seq![ActionView::Status(quoted("✅ Category '"@, n@, "' created"@), 2000), ActionView::EmitRefresh]),
        AppEvent::CategoryUpdated(n) => (s, seq![ActionView::Status(quoted("✏️ Category '"@, n@, "' updated"@), 2000), ActionView::EmitRefresh]),
        AppEvent::CategoryDeleted(n) => (s, seq![ActionView::Status(quoted("🗑️ Category '"@, n@, "' deleted"@), 2000), ActionView::EmitRefresh]),
        AppEvent::ConfigUpdated(p) => (s, seq![ActionView::ReloadConfig(p@)]),
        AppEvent::WindowResize(_, _) => (s, seq![]),
        AppEvent::ShowAdvancedSearchDialog => (s, seq![]),
        _ => step_file_ref(s, e),
    }
}

/// `before`, then `s`, then `after`.
fn text3(before: &str, s: &str, after: &str) -> (r: String)
    ensures
        r@ == quoted(before@, s@, after@),
{
    let mut r = String::new();
    push_str(&mut r, before);
    push_str(&mut r, s);
    push_str(&mut r, after);
    r
}

/// `before`, then the number, then `after`.
fn count_text(before: &str, n: usize, after: &str) -> (r: String)
    ensures
        r@ == counted(before@, n as nat, after@),
{
    let mut r = String::new();
    push_str(&mut r, before);
    push_decimal(&mut r, n as u64);
    push_str(&mut r, after);
    r
}

/// The one-action list.
fn one(a: Action) -> (r: Vec<Action>)
    ensures
        action_views(r@) == seq![a@],
{
    let mut r = Vec::new();
    r.push(a);
    assert(action_views(r@) =~= seq![a@]);
    r
}

/// The two-action list.
fn two(a: Action, b: Action) -> (r: Vec<Action>)
    ensures
        action_views(r@) == seq![a@, b@],
{
    let mut r = Vec::new();
    r.push(a);
    r.push(b);
    assert(action_views(r@) =~= seq![a@, b@]);
    r
}

/// The three-action list.
fn three(a: Action, b: Action, c: Action) -> (r: Vec<Action>)
    ensures
        action_views(r@) == seq![a@, b@, c@],
{
    let mut r = Vec::new();
    r.push(a);
    r.push(b);
    r.push(c);
    assert(action_views(r@) =~= seq![a@, b@, c@]);
    r
}

/// The four-action list.
fn four(a: Action, b: Action, c: Action, d: Action) -> (r: Vec<Action>)
    ensures
        action_views(r@) == seq![a@, b@, c@, d@],
{
    let mut r = Vec::new();
    r.push(a);
    r.push(b);
    r.push(c);
    r.push(d);
    assert(action_views(r@) =~= seq![a@, b@, c@, d@]);
    r
}

/// The empty action list.
fn none() -> (r: Vec<Action>)
    ensures
        action_views(r@) == Seq::<ActionView>::empty(),
{
    let r: Vec<Action> = Vec::new();
    assert(action_views(r@) =~= Seq::<ActionView>::empty());
    r
}

impl App {
    /// A new session: no files, nothing selected or previewed, nothing
    /// being edited.
    pub fn new() -> (r: Self)
        ensures
            r@.files.len() == 0,
            r@.selected is None,
            r@.preview is None,
            r@.editing is None,
            !r@.loading,
            r@.expanded == Set::<Seq<char>>::empty(),
            r@.selected_category is None,
            r@.config is None,
    {
        let r = App { state: AppState::new(), preview_file: None, editing_file_id: None, config: None };
        assert(stored_file_views(r.state.current_files@) =~= Seq::<StoredView>::empty());
        r
    }

    /// The position of the file a reference names (`index:N` or an
    /// identifier).
    pub fn get_file_by_ref(&self, file_ref: &str) -> (r: Option<usize>)
        ensures
            match r {
                Some(i) => file_ref_index(self@.files, file_ref@) == Some(i as int) && i < self.state.current_files@.len(),
                None => file_ref_index(self@.files, file_ref@) is None,
            },
    {
        let cs = chars_of(file_ref);
        let prefix = chars_of("index:");
        if crate::text::starts_with_chars(&cs, &prefix) {
            proof {
                reveal_strlit("index:");
            }
            let mut rest: Vec<char> = Vec::new();
            let mut k: usize = 6;
            assert(rest@ =~= cs@.subrange(6, 6));
            while k < cs.len()
                invariant
                    6 <= k <= cs.len(),
                    rest@ == cs@.subrange(6, k as int),
                decreases cs.len() - k,
            {
                rest.push(cs[k]);
                assert(cs@.subrange(6, k + 1) =~= cs@.subrange(6, k as int).push(cs@[k as int]));
                k += 1;
            }
            assert(cs@.skip(6) =~= rest@);
            let rest_s = string_of(&rest);
            match parse_usize(rest_s.as_str()) {
                Some(i) => if i < self.state.current_files.len() {
                    Some(i)
                } else {
                    None
                },
                None => None,
            }
        } else {
            find_file(&self.state.current_files, file_ref)
        }
    }

    /// Shows a page of results.
    fn on_results(&mut self, result: SearchResult) -> (r: Vec<Action>)
        ensures
            (final(self)@, action_views(r@)) == step(old(self)@, AppEvent::SearchResults(result)),
    {
        self.state.set_loading(false);
        let n = result.entries.len();
        let ghost entries = result.entries@;
        self.state.set_files(result.entries);
        let loaded = count_text("✅ Loaded ", n, " files");
        let found = if n == 0 {
            Action::Status("⚠️ No results found".to_owned(), 3000)
        } else {
            Action::Status(count_text("✅ Found ", n, " results"), 2000)
        };
        four(Action::Loading(false), Action::ShowFiles, Action::Status(loaded, 2000), found)
    }

    /// Shows a loaded file, or fills the edit dialog with it when it is the
    /// file being edited.
    fn on_loaded(&mut self, file: StoredFile) -> (r: Vec<Action>)
        ensures
            (final(self)@, action_views(r@)) == step(old(self)@, AppEvent::FileLoaded(file)),
    {
        let for_edit = match &self.editing_file_id {
            Some(editing) => *editing == file.id,
            None => false,
        };
        if for_edit {
            let msg = text3("✏️ Editing: ", file.title.as_str(), "");
            two(Action::EditForm(file), Action::Status(msg, 2000))
        } else {
            self.preview_file = Some(copy_stored(&file));
            self.state.selected_file = Some(copy_stored(&file));
            self.state.set_loading(false);
            one(Action::ShowDetails(file))
        }
    }

    /// Saves the file being edited, when the dialog's fields pass the check.
    fn on_save(&mut self, fields: DialogFields) -> (r: Vec<Action>)
        ensures
            (final(self)@, action_views(r@)) == step(old(self)@, AppEvent::SaveFile(fields)),
    {
        match &self.editing_file_id {
            Some(id) => {
                let id = id.clone();
                let metadata = fields.collect_form_data();
                match fields.validate_form() {
                    Ok(()) => {
                        self.editing_file_id = None;
                        three(
                            Action::SaveEdit(id, metadata),
                            Action::CloseEditDialog,
                            Action::Status("💾 Saving file changes...".to_owned(), 2000),
                        )
                    },
                    Err(e) => {
                        let msg = text3("❌ Validation error: ", e.message(), "");
                        one(Action::Status(msg, 3000))
                    },
                }
            },
            None => none(),
        }
    }

    /// Starts importing a file.
    fn on_import(&mut self, path: String) -> (r: Vec<Action>)
        ensures
            (final(self)@, action_views(r@)) == step(old(self)@, AppEvent::FileImport(path)),
    {
        self.state.set_loading(true);
        let name = match crate::paths::file_name_of(path.as_str()) {
            Some(n) => n,
            None => "file".to_owned(),
        };
        let msg = text3("📥 Importing: ", name.as_str(), "");
        three(Action::Loading(true), Action::Status(msg, 1000), Action::ImportFile(path))
    }

    /// Filters by a category.
    fn on_category(&mut self, p: String) -> (r: Vec<Action>)
        ensures
            (final(self)@, action_views(r@)) == step(old(self)@, AppEvent::CategorySelect(p)),
    {
        let filter = text3("category:", p.as_str(), "");
        let msg = text3("📋 Filtering by: ", p.as_str(), "");
        self.state.select_category(Some(p.clone()));
        self.state.set_loading(true);
        four(Action::EmitSearch(filter), Action::Loading(true), Action::Status(msg, 1000), Action::CategorySearch(p))
    }

    /// Reports an error.
    fn on_error(&mut self, m: String) -> (r: Vec<Action>)
        ensures
            (final(self)@, action_views(r@)) == step(old(self)@, AppEvent::Error(m)),
    {
        self.state.set_loading(false);
        let status = text3("❌ Error: ", m.as_str(), "");
        let alert = text3("Error: ", m.as_str(), "");
        three(Action::Loading(false), Action::ErrorStatus(status), Action::Alert(alert))
    }

    /// Acts on the selected file.
    fn on_selected(&mut self, edit: bool) -> (r: Vec<Action>)
        ensures
            (final(self)@, action_views(r@)) == step(old(self)@, if edit { AppEvent::EditSelectedFile } else { AppEvent::DeleteSelectedFile }),
    {
        match &self.state.selected_file {
            Some(f) => if edit {
                let id = f.id.clone();
                self.editing_file_id = Some(id.clone());
                one(Action::OpenEditDialog(id))
            } else {
                let q = text3("Are you sure you want to delete '", f.title.as_str(), "'?");
                let s = text3("🗑️ Deleting: ", f.title.as_str(), "");
                one(Action::ConfirmDelete(f.id.clone(), q, s))
            },
            None => one(Action::Status("⚠️ No file selected".to_owned(), 2000)),
        }
    }

    /// Reports a change to the categories and asks for a refresh.
    fn on_category_change(&mut self, n: String, kind: u8) -> (r: Vec<Action>)
        requires
            kind < 3,
        ensures
            (final(self)@, action_views(r@)) == step(old(self)@, if kind == 0 { AppEvent::CategoryCreated(n) } else if kind == 1 { AppEvent::CategoryUpdated(n) } else { AppEvent::CategoryDeleted(n) }),
    {
        let msg = if kind == 0 {
            text3("✅ Category '", n.as_str(), "' created")
        } else if kind == 1 {
            text3("✏️ Category '", n.as_str(), "' updated")
        } else {
            text3("🗑️ Category '", n.as_str(), "' deleted")
        };
        two(Action::Status(msg, 2000), Action::EmitRefresh)
    }

    /// Acts on a file named by a reference.
    fn on_file_ref(&mut self, event: AppEvent) -> (r: Vec<Action>)
        requires
            event is OpenFile || event is EditFile || event is CopyFilePath || event is ShowInFolder,
        ensures
            (final(self)@, action_views(r@)) == step(old(self)@, event),
    {
        let ghost e = event;
        match event {
            AppEvent::OpenFile(r) => match self.get_file_by_ref(r.as_str()) {
                Some(i) => {
                    let f = &self.state.current_files[i];
                    let msg = text3("📄 Opening: ", f.title.as_str(), "");
                    two(Action::Status(msg, 1500), Action::OpenPath(f.path.clone()))
                },
                None => none(),
            },
            AppEvent::EditFile(r) => match self.get_file_by_ref(r.as_str()) {
                Some(i) => one(Action::EmitFileEdit(self.state.current_files[i].id.clone())),
                None => none(),
            },
            AppEvent::CopyFilePath(r) => match self.get_file_by_ref(r.as_str()) {
                Some(i) => one(Action::CopyPath(self.state.current_files[i].path.clone())),
                None => none(),
            },
            AppEvent::ShowInFolder(r) => match self.get_file_by_ref(r.as_str()) {
                Some(i) => {
                    let f = &self.state.current_files[i];
                    let msg = text3("📁 Opening folder: ", f.title.as_str(), "");
                    two(Action::Status(msg, 1500), Action::OpenFolder(f.path.clone()))
                },
                None => none(),
            },
            _ => none(),
        }
    }

    /// Deletes a file named by a reference, or the file being edited.
    fn on_delete(&mut self, r: String) -> (a: Vec<Action>)
        ensures
            (final(self)@, action_views(a@)) == step(old(self)@, AppEvent::DeleteFile(r)),
    {
        if str_eq(r.as_str(), "editing") {
            match &self.editing_file_id {
                Some(id) => {
                    let id = id.clone();
                    self.editing_file_id = None;
                    return three(
                        Action::DeleteFile(id),
                        Action::CloseEditDialog,
                        Action::Status("🗑️ Deleting file...".to_owned(), 2000),
                    );
                },
                None => {},
            }
        }
        match self.get_file_by_ref(r.as_str()) {
            Some(i) => {
                let f = &self.state.current_files[i];
                let msg = text3("🗑️ Deleting: ", f.title.as_str(), "");
                two(Action::DeleteFile(f.id.clone()), Action::Status(msg, 2000))
            },
            None => none(),
        }
    }

    /// Handles an event: updates the session and returns what the window
    /// is to do, in order.
    #[verifier::rlimit(50)]
    /// The end of reloading the configuration at `path` (asked for by a
    /// configuration update): a configuration that loaded replaces the one
    /// in use, the status bar says so, and the view is refreshed; a failure
    /// is shown in the status bar and the configuration stays as it was.
    pub fn config_loaded(&mut self, path: String, outcome: Result<ConfigValues, String>) -> (r: Vec<Action>)
        ensures
            (final(self)@, action_views(r@)) == config_step(old(self)@, path@, match outcome {
                Ok(c) => Ok(c@),
                Err(e) => Err(e@),
            }),
    {
        match outcome {
            Ok(c) => {
                let name = match crate::paths::file_name_of(path.as_str()) {
                    Some(n) => n,
                    None => String::new(),
                };
                self.config = Some(c);
                let msg = text3("✅ Config loaded: ", name.as_str(), "");
                two(Action::Status(msg, 3000), Action::EmitRefresh)
            },
            Err(e) => {
                let msg = text3("❌ Failed to reload config: ", e.as_str(), "");
                one(Action::Status(msg, 5000))
            },
        }
    }

    pub fn handle_event(&mut self, event: AppEvent) -> (r: Vec<Action>)
        ensures
            (final(self)@, action_views(r@)) == step(old(self)@, event),
    {
        match event {
            AppEvent::SearchQuery(q) => {
                self.state.set_loading(true);
                two(Action::Loading(true), Action::Search(q))
            },
            AppEvent::AdvancedSearch(o) => {
                self.state.set_loading(true);
                two(Action::Loading(true), Action::AdvancedSearch(o))
            },
            AppEvent::SearchResults(result) => self.on_results(result),
            AppEvent::FileSelected(id) => self.select_file(id),
            AppEvent::FileLoaded(file) => self.on_loaded(file),
            AppEvent::FileImported(file) => {
                let msg = text3("✅ Imported: ", file.title.as_str(), "");
                two(Action::ImportSucceeded(file), Action::Status(msg, 3000))
            },
            AppEvent::FileOpen(_) => match &self.preview_file {
                Some(p) => one(Action::OpenPath(p.path.clone())),
                None => none(),
            },
            AppEvent::FileEdit(id) => {
                self.editing_file_id = Some(id.clone());
                one(Action::OpenEditDialog(id))
            },
            AppEvent::FileImport(path) => self.on_import(path),
            AppEvent::SaveFile(fields) => self.on_save(fields),
            AppEvent::CancelEdit => {
                self.editing_file_id = None;
                two(Action::CloseEditDialog, Action::Status("📄 Edit cancelled".to_owned(), 1500))
            },
            AppEvent::CategoryExpand(p) => {
                self.state.expand_category(p);
                none()
            },
            AppEvent::CategorySelect(p) => self.on_category(p),
            AppEvent::LoadingStart => {
                self.state.set_loading(true);
                one(Action::Loading(true))
            },
            AppEvent::LoadingEnd => {
                self.state.set_loading(false);
                one(Action::Loading(false))
            },
            AppEvent::RefreshView => one(Action::EmitLoadingEnd),
            AppEvent::Error(m) => self.on_error(m),
            AppEvent::OpenSettings => one(Action::OpenSettings),
            AppEvent::OpenLogViewer => one(Action::OpenLogViewer),
            AppEvent::ShowStatistics => one(Action::ShowStatistics),
            AppEvent::OpenAdvancedSearch => one(Action::OpenAdvancedSearch),
            AppEvent::OpenCategoryManager => one(Action::OpenCategoryManager),
            AppEvent::FocusSearchBar => one(Action::FocusSearchBar),
            AppEvent::EditSelectedFile => self.on_selected(true),
            AppEvent::DeleteSelectedFile => self.on_selected(false),
            AppEvent::CategoryCreated(n) => self.on_category_change(n, 0),
            AppEvent::CategoryUpdated(n) => self.on_category_change(n, 1),
            AppEvent::CategoryDeleted(n) => self.on_category_change(n, 2),
            AppEvent::ConfigUpdated(p) => one(Action::ReloadConfig(p)),
            AppEvent::WindowResize(_, _) => none(),
            AppEvent::ShowAdvancedSearchDialog => none(),
            AppEvent::DeleteFile(r) => self.on_delete(r),
            AppEvent::OpenFile(r) => self.on_file_ref(AppEvent::OpenFile(r)),
            AppEvent::EditFile(r) => self.on_file_ref(AppEvent::EditFile(r)),
            AppEvent::CopyFilePath(r) => self.on_file_ref(AppEvent::CopyFilePath(r)),
            AppEvent::ShowInFolder(r) => self.on_file_ref(AppEvent::ShowInFolder(r)),
        }
    }

    /// Selects a file by reference (see `step_select`).
    fn select_file(&mut self, id: String) -> (r: Vec<Action>)
        ensures
            (final(self)@, action_views(r@)) == step_select(old(self)@, id@),
    {
        let cs = chars_of(id.as_str());
        let prefix = chars_of("index:");
        if crate::text::starts_with_chars(&cs, &prefix) {
            match self.get_file_by_ref(id.as_str()) {
                Some(i) => {
                    let f = copy_stored(&self.state.current_files[i]);
                    self.preview_file = Some(copy_stored(&f));
                    self.state.selected_file = Some(f);
                    two(Action::SelectRow(i), Action::LoadFile(id))
                },
                None => one(Action::LoadFile(id)),
            }
        } else {
            self.state.select_file(id.as_str());
            one(Action::LoadFile(id))
        }
    }
}

} // verus!

verus! {

/// Once an edit is cancelled, saving does nothing: no action, and the
/// window's state stays as the cancellation left it.
pub proof fn lemma_save_after_cancel_is_ignored(s: SessionView, fields: DialogFields)
    ensures
        step(step(s, AppEvent::CancelEdit).0, AppEvent::SaveFile(fields)) == (step(s, AppEvent::CancelEdit).0, Seq::<ActionView>::empty()),
{
}

/// A search marks the window busy and asks for the query; the results that
/// come back end the busy state and become the listed files.
pub proof fn lemma_search_then_results(s: SessionView, q: String, r: SearchResult)
    ensures
        step(s, AppEvent::SearchQuery(q)).0.loading,
        step(s, AppEvent::SearchQuery(q)).1.contains(ActionView::Search(q@)),
        !step(step(s, AppEvent::SearchQuery(q)).0, AppEvent::SearchResults(r)).0.loading,
        step(step(s, AppEvent::SearchQuery(q)).0, AppEvent::SearchResults(r)).0.files == stored_file_views(r.entries@),
{
    assert(step(s, AppEvent::SearchQuery(q)).1[1] == ActionView::Search(q@));
}

/// Cancelling an edit that was started leaves nothing being edited; a save
/// whose fields pass the form's checks ends the edit, and one whose fields
/// fail leaves the window as it was, still editing.
pub proof fn lemma_edit_ends(s: SessionView, id: String, fields: DialogFields)
    ensures
        step(step(s, AppEvent::FileEdit(id)).0, AppEvent::CancelEdit).0.editing is None,
        s.editing is Some && dialog_check(fields@) is Ok ==> step(s, AppEvent::SaveFile(fields)).0.editing is None,
        dialog_check(fields@) is Err ==> step(s, AppEvent::SaveFile(fields)).0 == s,
{
}

} // verus!

verus! {

/// No event handled by the session changes the configuration in use: only
/// the end of a reload does.
pub proof fn lemma_events_keep_config(s: SessionView, e: AppEvent)
    ensures
        step(s, e).0.config == s.config,
{
}

} // verus!
