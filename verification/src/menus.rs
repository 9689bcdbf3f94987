//! The desktop window's menu bar: which item a chosen label is, and the
//! event an item raises by itself.

use vstd::prelude::*;

use crate::session::AppEvent;
use crate::text::str_eq;

verus! {

broadcast use vstd::string::group_string_axioms;

/// An item of the menu bar.
#[derive(Clone, Copy, Debug, PartialEq, Eq, Structural)]
pub enum MenuItem {
    /// "&New File..."
    NewFile,
    /// "&Import Files..."
    ImportFiles,
    /// "Import from &URL..."
    ImportFromUrl,
    /// "E&xit"
    Exit,
    /// "&Find..."
    Find,
    /// "&Select All"
    SelectAll,
    /// "&Refresh"
    Refresh,
    /// "&Full Screen"
    FullScreen,
    /// "&Quick Search"
    QuickSearch,
    /// "&Advanced Search"
    AdvancedSearch,
    /// "&Rebuild Index"
    RebuildIndex,
    /// "&Backup Database"
    BackupDatabase,
    /// "&Category Manager..."
    CategoryManager,
    /// "&Log Viewer"
    LogViewer,
    /// "&Statistics"
    Statistics,
    /// "&Preferences..."
    Preferences,
    /// "&Select Config File..."
    SelectConfigFile,
    /// "&Edit Config File"
    EditConfigFile,
    /// "&New Config File..."
    NewConfigFile,
    /// "&Reload Config"
    ReloadConfig,
    /// "&Validate Config"
    ValidateConfig,
    /// "&User Guide"
    UserGuide,
    /// "&Keyboard Shortcuts"
    KeyboardShortcuts,
    /// "&About TagBox"
    About,
    /// A label that is none of these.
    Other,
}

/// The item a menu label names.
pub open spec fn menu_item_of(label: Seq<char>) -> MenuItem {
    if label == "&New File..."@ {
        MenuItem::NewFile
    } else if label == "&Import Files..."@ {
        MenuItem::ImportFiles
    } else if label == "Import from &URL..."@ {
        MenuItem::ImportFromUrl
    } else if label == "E&xit"@ {
        MenuItem::Exit
    } else if label == "&Find..."@ {
        MenuItem::Find
    } else if label == "&Select All"@ {
        MenuItem::SelectAll
    } else if label == "&Refresh"@ {
        MenuItem::Refresh
    } else if label == "&Full Screen"@ {
        MenuItem::FullScreen
    } else if label == "&Quick Search"@ {
        MenuItem::QuickSearch
    } else if label == "&Advanced Search"@ {
        MenuItem::AdvancedSearch
    } else if label == "&Rebuild Index"@ {
        MenuItem::RebuildIndex
    } else if label == "&Backup Database"@ {
        MenuItem::BackupDatabase
    } else if label == "&Category Manager..."@ {
        MenuItem::CategoryManager
    } else if label == "&Log Viewer"@ {
        MenuItem::LogViewer
    } else if label == "&Statistics"@ {
        MenuItem::Statistics
    } else if label == "&Preferences..."@ {
        MenuItem::Preferences
    } else if label == "&Select Config File..."@ {
        MenuItem::SelectConfigFile
    } else if label == "&Edit Config File"@ {
        MenuItem::EditConfigFile
    } else if label == "&New Config File..."@ {
        MenuItem::NewConfigFile
    } else if label == "&Reload Config"@ {
        MenuItem::ReloadConfig
    } else if label == "&Validate Config"@ {
        MenuItem::ValidateConfig
    } else if label == "&User Guide"@ {
        MenuItem::UserGuide
    } else if label == "&Keyboard Shortcuts"@ {
        MenuItem::KeyboardShortcuts
    } else if label == "&About TagBox"@ {
        MenuItem::About
    } else {
        MenuItem::Other
    }
}

/// The item a chosen menu label names.
pub fn menu_item(label: &str) -> (r: MenuItem)
    ensures
        r == menu_item_of(label@),
{
    if str_eq(label, "&New File...") {
        MenuItem::NewFile
    } else if str_eq(label, "&Import Files...") {
        MenuItem::ImportFiles
    } else if str_eq(label, "Import from &URL...") {
        MenuItem::ImportFromUrl
    } else if str_eq(label, "E&xit") {
        MenuItem::Exit
    } else if str_eq(label, "&Find...") {
        MenuItem::Find
    } else if str_eq(label, "&Select All") {
        MenuItem::SelectAll
    } else if str_eq(label, "&Refresh") {
        MenuItem::Refresh
    } else if str_eq(label, "&Full Screen") {
        MenuItem::FullScreen
    } else if str_eq(label, "&Quick Search") {
        MenuItem::QuickSearch
    } else if str_eq(label, "&Advanced Search") {
        MenuItem::AdvancedSearch
    } else if str_eq(label, "&Rebuild Index") {
        MenuItem::RebuildIndex
    } else if str_eq(label, "&Backup Database") {
        MenuItem::BackupDatabase
    } else if str_eq(label, "&Category Manager...") {
        MenuItem::CategoryManager
    } else if str_eq(label, "&Log Viewer") {
        MenuItem::LogViewer
    } else if str_eq(label, "&Statistics") {
        MenuItem::Statistics
    } else if str_eq(label, "&Preferences...") {
        MenuItem::Preferences
    } else if str_eq(label, "&Select Config File...") {
        MenuItem::SelectConfigFile
    } else if str_eq(label, "&Edit Config File") {
        MenuItem::EditConfigFile
    } else if str_eq(label, "&New Config File...") {
        MenuItem::NewConfigFile
    } else if str_eq(label, "&Reload Config") {
        MenuItem::ReloadConfig
    } else if str_eq(label, "&Validate Config") {
        MenuItem::ValidateConfig
    } else if str_eq(label, "&User Guide") {
        MenuItem::UserGuide
    } else if str_eq(label, "&Keyboard Shortcuts") {
        MenuItem::KeyboardShortcuts
    } else if str_eq(label, "&About TagBox") {
        MenuItem::About
    } else {
        MenuItem::Other
    }
}

/// The event an item raises without asking anything first: importing an
/// empty path for a new file, refreshing, and opening the category manager,
/// log viewer, statistics or settings; `None` for the other items.
pub fn menu_event(item: MenuItem) -> (r: Option<AppEvent>)
    ensures
        match item {
            MenuItem::NewFile => r matches Some(AppEvent::FileImport(p)) && p@.len() == 0,
            MenuItem::Refresh => r matches Some(AppEvent::RefreshView),
            MenuItem::CategoryManager => r matches Some(AppEvent::OpenCategoryManager),
            MenuItem::LogViewer => r matches Some(AppEvent::OpenLogViewer),
            MenuItem::Statistics => r matches Some(AppEvent::ShowStatistics),
            MenuItem::Preferences => r matches Some(AppEvent::OpenSettings),
            _ => r is None,
        },
{
    match item {
        MenuItem::NewFile => Some(AppEvent::FileImport(String::new())),
        MenuItem::Refresh => Some(AppEvent::RefreshView),
        MenuItem::CategoryManager => Some(AppEvent::OpenCategoryManager),
        MenuItem::LogViewer => Some(AppEvent::OpenLogViewer),
        MenuItem::Statistics => Some(AppEvent::ShowStatistics),
        MenuItem::Preferences => Some(AppEvent::OpenSettings),
        _ => None,
    }
}

} // verus!
