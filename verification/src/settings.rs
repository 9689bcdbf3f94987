//! The settings page: loading, editing, saving and creating the
//! configuration file, with the messages the page shows.

use vstd::prelude::*;

use crate::library::opt_view;
use crate::text::push_str;

verus! {

broadcast use vstd::string::group_string_axioms;

/// The configuration written when a new configuration file is created.
pub fn default_config() -> (r: &'static str)
    ensures
        r@ == default_config_spec(),
{
    "# TagBox Configuration File\n# TagBox 配置文件\n\n[database]\n# Database file path / 数据库文件路径\npath = \"tagbox_data/tagbox.db\"\n\n[import]\n# Default import paths / 默认导入路径\ndefault_paths = [\"~/Documents\", \"~/Downloads\"]\n\n# Maximum file size in MB / 最大文件大小（MB）\nmax_file_size = 100\n\n# Supported file types / 支持的文件类型\nfile_types = [\"pdf\", \"epub\", \"txt\", \"md\", \"djvu\", \"mobi\"]\n\n[search]\n# Maximum search results / 最大搜索结果数\nmax_results = 100\n\n# Enable fuzzy search / 启用模糊搜索\nfuzzy_search = true\n\n# Search history limit / 搜索历史限制\nhistory_limit = 50\n\n[ui]\n# Theme (light/dark) / 主题\ntheme = \"light\"\n\n# Language / 语言\nlanguage = \"zh-CN\"\n\n# Show status bar / 显示状态栏\nshow_status_bar = true\n"
}

/// The text of the default configuration.
pub open spec fn default_config_spec() -> Seq<char> {
    "# TagBox Configuration File\n# TagBox 配置文件\n\n[database]\n# Database file path / 数据库文件路径\npath = \"tagbox_data/tagbox.db\"\n\n[import]\n# Default import paths / 默认导入路径\ndefault_paths = [\"~/Documents\", \"~/Downloads\"]\n\n# Maximum file size in MB / 最大文件大小（MB）\nmax_file_size = 100\n\n# Supported file types / 支持的文件类型\nfile_types = [\"pdf\", \"epub\", \"txt\", \"md\", \"djvu\", \"mobi\"]\n\n[search]\n# Maximum search results / 最大搜索结果数\nmax_results = 100\n\n# Enable fuzzy search / 启用模糊搜索\nfuzzy_search = true\n\n# Search history limit / 搜索历史限制\nhistory_limit = 50\n\n[ui]\n# Theme (light/dark) / 主题\ntheme = \"light\"\n\n# Language / 语言\nlanguage = \"zh-CN\"\n\n# Show status bar / 显示状态栏\nshow_status_bar = true\n"@
}

/// The path of a new configuration file in a folder.
pub fn new_config_path(folder: &str) -> (r: String)
    ensures
        r@ == folder@ + "/tagbox.toml"@,
{
    let mut r = String::new();
    push_str(&mut r, folder);
    push_str(&mut r, "/tagbox.toml");
    r
}

/// The state of the settings page: the configuration file's path and the
/// text being edited, whether a file operation runs, and the last success
/// and error messages.
#[derive(Clone, Debug)]
pub struct SettingsState {
    pub config_path: String,
    pub config_content: String,
    pub is_loading: bool,
    pub save_message: Option<String>,
    pub error_message: Option<String>,
}

/// `prefix` followed by an error.
fn with_error(prefix: &str, e: &str) -> (r: String)
    ensures
        r@ == prefix@ + e@,
{
    let mut r = String::new();
    push_str(&mut r, prefix);
    push_str(&mut r, e);
    r
}

impl SettingsState {
    /// The page when it opens: the file "tagbox.toml", nothing loaded yet.
    pub fn new() -> (r: Self)
        ensures
            r.config_path@ == "tagbox.toml"@,
            r.config_content@.len() == 0,
            !r.is_loading,
            r.save_message is None,
            r.error_message is None,
    {
        SettingsState {
            config_path: "tagbox.toml".to_owned(),
            config_content: String::new(),
            is_loading: false,
            save_message: None,
            error_message: None,
        }
    }

    /// Loading starts: both messages are cleared.
    pub fn begin_load(&mut self)
        ensures
            final(self).is_loading,
            final(self).save_message is None,
            final(self).error_message is None,
            final(self).config_path == old(self).config_path,
            final(self).config_content == old(self).config_content,
    {
        self.is_loading = true;
        self.error_message = None;
        self.save_message = None;
    }

    /// Loading ended: the text and path of the file read, or the error.
    pub fn finish_load(&mut self, path: String, outcome: Result<String, String>)
        ensures
            !final(self).is_loading,
            final(self).save_message == old(self).save_message,
            match outcome {
                Ok(c) => final(self).config_content == c && final(self).config_path == path
                    && final(self).error_message == old(self).error_message,
                Err(e) => final(self).config_content == old(self).config_content
                    && final(self).config_path == old(self).config_path
                    && opt_view(final(self).error_message) == Some("读取配置文件失败: "@ + e@),
            },
    {
        match outcome {
            Ok(c) => {
                self.config_content = c;
                self.config_path = path;
            },
            Err(e) => {
                self.error_message = Some(with_error("读取配置文件失败: ", e.as_str()));
            },
        }
        self.is_loading = false;
    }

    /// Saving starts: the error is cleared; returns the path and the text
    /// to write.
    pub fn begin_save(&mut self) -> (r: (String, String))
        ensures
            final(self).is_loading,
            final(self).error_message is None,
            final(self).save_message == old(self).save_message,
            final(self).config_path == old(self).config_path,
            final(self).config_content == old(self).config_content,
            r.0 == old(self).config_path,
            r.1 == old(self).config_content,
    {
        self.is_loading = true;
        self.error_message = None;
        (self.config_path.clone(), self.config_content.clone())
    }

    /// Saving ended: "配置已保存" on success (the page stays busy until the
    /// message expires), the error otherwise.
    pub fn finish_save(&mut self, outcome: Result<(), String>)
        ensures
            final(self).config_path == old(self).config_path,
            final(self).config_content == old(self).config_content,
            match outcome {
                Ok(_) => opt_view(final(self).save_message) == Some("配置已保存"@)
                    && final(self).is_loading == old(self).is_loading
                    && final(self).error_message == old(self).error_message,
                Err(e) => opt_view(final(self).error_message) == Some("保存配置失败: "@ + e@)
                    && !final(self).is_loading
                    && final(self).save_message == old(self).save_message,
            },
    {
        match outcome {
            Ok(()) => {
                self.save_message = Some("配置已保存".to_owned());
            },
            Err(e) => {
                self.error_message = Some(with_error("保存配置失败: ", e.as_str()));
                self.is_loading = false;
            },
        }
    }

    /// The saved message has been shown long enough: it goes, and the page
    /// is idle.
    pub fn save_message_expired(&mut self)
        ensures
            final(self).save_message is None,
            !final(self).is_loading,
            final(self).error_message == old(self).error_message,
            final(self).config_path == old(self).config_path,
            final(self).config_content == old(self).config_content,
    {
        self.save_message = None;
        self.is_loading = false;
    }

    /// Creating a new file starts: the error is cleared.
    pub fn begin_init(&mut self)
        ensures
            final(self).is_loading,
            final(self).error_message is None,
            final(self).save_message == old(self).save_message,
            final(self).config_path == old(self).config_path,
            final(self).config_content == old(self).config_content,
    {
        self.is_loading = true;
        self.error_message = None;
    }

    /// Creating a new file ended: on success the page edits the new file,
    /// which holds the default configuration; the error otherwise.
    pub fn finish_init(&mut self, path: String, outcome: Result<(), String>)
        ensures
            !final(self).is_loading,
            match outcome {
                Ok(_) => final(self).config_path == path
                    && final(self).config_content@ == default_config_spec()
                    && opt_view(final(self).save_message) == Some("新配置文件已创建"@)
                    && final(self).error_message == old(self).error_message,
                Err(e) => opt_view(final(self).error_message) == Some("创建配置文件失败: "@ + e@)
                    && final(self).config_path == old(self).config_path
                    && final(self).config_content == old(self).config_content
                    && final(self).save_message == old(self).save_message,
            },
    {
        match outcome {
            Ok(()) => {
                self.config_path = path;
                self.config_content = default_config().to_owned();
                self.save_message = Some("新配置文件已创建".to_owned());
            },
            Err(e) => {
                self.error_message = Some(with_error("创建配置文件失败: ", e.as_str()));
            },
        }
        self.is_loading = false;
    }

    /// A file was picked: it becomes the configuration path (and is then
    /// loaded).
    pub fn pick_file(&mut self, path: String)
        ensures
            final(self).config_path == path,
            final(self).config_content == old(self).config_content,
            final(self).is_loading == old(self).is_loading,
            final(self).save_message == old(self).save_message,
            final(self).error_message == old(self).error_message,
    {
        self.config_path = path;
    }

    /// The text of the save button.
    pub fn save_button_text(&self) -> (r: &'static str)
        ensures
            r@ == if self.is_loading { "Saving..."@ } else { "Save"@ },
    {
        if self.is_loading {
            "Saving..."
        } else {
            "Save"
        }
    }
}

// ---------------------------------------------------------------------------
// The settings dialog of the desktop window
// ---------------------------------------------------------------------------

/// The configuration values the settings dialog shows and edits: the
/// database path, the storage folder for imports, whether JSON metadata is
/// preferred, whether full-text search is on, and the search result limit.
#[derive(Clone, Debug)]
pub struct ConfigValues {
    pub database_path: String,
    pub storage_dir: String,
    pub prefer_json: bool,
    pub enable_fts: bool,
    pub default_limit: usize,
}

/// The value of a `ConfigValues`.
pub struct ConfigValuesView {
    pub database_path: Seq<char>,
    pub storage_dir: Seq<char>,
    pub prefer_json: bool,
    pub enable_fts: bool,
    pub default_limit: usize,
}

impl View for ConfigValues {
    type V = ConfigValuesView;

    open spec fn view(&self) -> ConfigValuesView {
        ConfigValuesView {
            database_path: self.database_path@,
            storage_dir: self.storage_dir@,
            prefer_json: self.prefer_json,
            enable_fts: self.enable_fts,
            default_limit: self.default_limit,
        }
    }
}

/// The settings dialog's fields.
#[derive(Clone, Debug)]
pub struct DialogSettings {
    pub config_path_text: String,
    pub db_path: String,
    pub import_path: String,
    pub auto_extract: bool,
    pub auto_move: bool,
    pub enable_fts: bool,
    pub max_results: String,
    pub modified: bool,
}

impl DialogSettings {
    /// The fields for a configuration and the path it was read from: the
    /// path (or that none is loaded), the configuration's values, automatic
    /// moving off, nothing modified.
    pub fn load_config(config: &ConfigValues, path: Option<&str>) -> (r: Self)
        ensures
            r.config_path_text@ == match path {
                Some(p) => p@,
                None => "No configuration file loaded"@,
            },
            r.db_path@ == config.database_path@,
            r.import_path@ == config.storage_dir@,
            r.auto_extract == config.prefer_json,
            !r.auto_move,
            r.enable_fts == config.enable_fts,
            r.max_results@ == crate::text::decimal(config.default_limit as nat),
            !r.modified,
    {
        let config_path_text = match path {
            Some(p) => p.to_owned(),
            None => "No configuration file loaded".to_owned(),
        };
        let mut max_results = String::new();
        crate::text::push_decimal(&mut max_results, config.default_limit as u64);
        DialogSettings {
            config_path_text,
            db_path: config.database_path.clone(),
            import_path: config.storage_dir.clone(),
            auto_extract: config.prefer_json,
            auto_move: false,
            enable_fts: config.enable_fts,
            max_results,
            modified: false,
        }
    }

    /// "Reset to defaults": "tagbox.db", "./documents", extraction and
    /// full-text search on, moving off, 1000 results; marked modified.
    pub fn reset_to_defaults(&mut self)
        ensures
            final(self).db_path@ == "tagbox.db"@,
            final(self).import_path@ == "./documents"@,
            final(self).auto_extract,
            !final(self).auto_move,
            final(self).enable_fts,
            final(self).max_results@ == "1000"@,
            final(self).modified,
            final(self).config_path_text == old(self).config_path_text,
    {
        self.db_path = "tagbox.db".to_owned();
        self.import_path = "./documents".to_owned();
        self.auto_extract = true;
        self.auto_move = false;
        self.enable_fts = true;
        self.max_results = "1000".to_owned();
        self.modified = true;
    }

    /// Saving: the database path and storage folder are taken from the
    /// fields when not empty, the JSON preference from the extraction box;
    /// the rest of the configuration stays.
    pub fn apply_to(&self, config: &mut ConfigValues)
        ensures
            final(config).database_path@ == if self.db_path@.len() == 0 {
                old(config).database_path@
            } else {
                self.db_path@
            },
            final(config).storage_dir@ == if self.import_path@.len() == 0 {
                old(config).storage_dir@
            } else {
                self.import_path@
            },
            final(config).prefer_json == self.auto_extract,
            final(config).enable_fts == old(config).enable_fts,
            final(config).default_limit == old(config).default_limit,
    {
        if !self.db_path.as_str().is_empty() {
            config.database_path = self.db_path.clone();
        }
        if !self.import_path.as_str().is_empty() {
            config.storage_dir = self.import_path.clone();
        }
        config.prefer_json = self.auto_extract;
    }
}

/// The name of a database backup: the database path, ".backup." and the
/// time stamp.
pub fn backup_name(db_path: &str, stamp: &str) -> (r: String)
    ensures
        r@ == db_path@ + ".backup."@ + stamp@,
{
    let mut r = String::new();
    push_str(&mut r, db_path);
    push_str(&mut r, ".backup.");
    push_str(&mut r, stamp);
    r
}

} // verus!
