//! The edit and import pages of the browsing front end: their fields, and
//! the saving, deleting, extracting and importing they start and finish
//! (the service calls in between are made by the caller).

use vstd::prelude::*;

use crate::library::{entry_from_stored, entry_of, opt_view, FileEntry, StoredFile};
use crate::session::{find_file, first_with_id, stored_file_views};
use crate::metadata::{
    edit_fields_of_entry, edit_fields_of_meta, edit_metadata, import_fields_after, import_metadata, EditFields,
    ImportFields, ImportFieldsView, ImportMetadata,
};
use crate::text::push_str;

verus! {

broadcast use vstd::string::group_string_axioms;

/// `prefix` followed by an error.
fn prefixed(prefix: &str, e: &str) -> (r: String)
    ensures
        r@ == prefix@ + e@,
{
    let mut r = String::new();
    push_str(&mut r, prefix);
    push_str(&mut r, e);
    r
}

/// A copy of the edit page's fields.
fn copy_edit_fields(f: &EditFields) -> (r: EditFields)
    ensures
        r@ == f@,
{
    EditFields {
        title: f.title.clone(),
        authors: f.authors.clone(),
        tags: f.tags.clone(),
        summary: f.summary.clone(),
        category1: f.category1.clone(),
        category2: f.category2.clone(),
        category3: f.category3.clone(),
    }
}

// ---------------------------------------------------------------------------
// The edit page
// ---------------------------------------------------------------------------

/// The edit page: the fields and the values they started from, and for
/// saving, deleting and extracting again whether it runs and its last
/// error; and whether the delete confirmation is open.
#[derive(Clone, Debug)]
pub struct EditPageState {
    pub fields: EditFields,
    pub original: EditFields,
    pub is_saving: bool,
    pub save_error: Option<String>,
    pub show_delete_dialog: bool,
    pub is_deleting: bool,
    pub delete_error: Option<String>,
    pub is_extracting: bool,
    pub extract_error: Option<String>,
}

/// What the end of a delete leads to: a notification, and whether the
/// page goes back to the main view.
#[derive(Clone, Debug)]
pub struct DeleteEnd {
    pub toast: Option<String>,
    pub leave: bool,
}

/// The file the edit page is opened for: the first of the results with
/// the given identifier, as the browsing view shows it; `None` (the page
/// then says that the file was not found) when no result has it.
pub fn edited_file(entries: &Vec<StoredFile>, file_id: &str) -> (r: Option<FileEntry>)
    ensures
        r is Some <==> first_with_id(stored_file_views(entries@), file_id@) is Some,
        r is Some ==> r->0@ == entry_of(entries@[first_with_id(stored_file_views(entries@), file_id@)->0])@,
{
    match find_file(entries, file_id) {
        Some(i) => Some(entry_from_stored(&entries[i])),
        None => None,
    }
}

impl EditPageState {
    /// The page for a file: its fields, nothing running, no errors.
    pub fn new(file: &FileEntry) -> (r: Self)
        ensures
            r.fields@ == edit_fields_of_entry(file@),
            r.original@ == edit_fields_of_entry(file@),
            !r.is_saving && !r.is_deleting && !r.is_extracting && !r.show_delete_dialog,
            r.save_error is None && r.delete_error is None && r.extract_error is None,
    {
        let fields = EditFields::from_entry(file);
        let original = copy_edit_fields(&fields);
        EditPageState {
            fields,
            original,
            is_saving: false,
            save_error: None,
            show_delete_dialog: false,
            is_deleting: false,
            delete_error: None,
            is_extracting: false,
            extract_error: None,
        }
    }

    /// The save button: while a save runs it does nothing (`None`);
    /// otherwise the save starts, its error is cleared, and the metadata to
    /// save is returned.
    pub fn begin_save(&mut self) -> (r: Option<ImportMetadata>)
        ensures
            old(self).is_saving ==> r is None && *final(self) == *old(self),
            !old(self).is_saving ==> (r matches Some(m) && m@ == edit_metadata(old(self).fields@)),
            !old(self).is_saving ==> *final(self) == (EditPageState {
                is_saving: true,
                save_error: None,
                ..*old(self)
            }),
    {
        if self.is_saving {
            None
        } else {
            self.is_saving = true;
            self.save_error = None;
            Some(self.fields.to_metadata())
        }
    }

    /// The save ended: "文件保存成功" is announced on success; on failure
    /// the error reads "保存失败: " and the reason.
    pub fn finish_save(&mut self, outcome: Result<(), String>) -> (toast: Option<String>)
        ensures
            !final(self).is_saving,
            final(self).fields == old(self).fields,
            final(self).original == old(self).original,
            final(self).is_deleting == old(self).is_deleting,
            final(self).delete_error == old(self).delete_error,
            final(self).is_extracting == old(self).is_extracting,
            final(self).extract_error == old(self).extract_error,
            final(self).show_delete_dialog == old(self).show_delete_dialog,
            match outcome {
                Ok(_) => opt_view(toast) == Some("文件保存成功"@) && final(self).save_error == old(self).save_error,
                Err(e) => toast is None && opt_view(final(self).save_error) == Some("保存失败: "@ + e@),
            },
    {
        self.is_saving = false;
        match outcome {
            Ok(()) => Some("文件保存成功".to_owned()),
            Err(e) => {
                self.save_error = Some(prefixed("保存失败: ", e.as_str()));
                None
            },
        }
    }

    /// The delete button opens the confirmation.
    pub fn ask_delete(&mut self)
        ensures
            *final(self) == (EditPageState { show_delete_dialog: true, ..*old(self) }),
    {
        self.show_delete_dialog = true;
    }

    /// The deletion was confirmed: it starts, its error is cleared and the
    /// confirmation closes.
    pub fn begin_delete(&mut self)
        ensures
            *final(self) == (EditPageState {
                is_deleting: true,
                delete_error: None,
                show_delete_dialog: false,
                ..*old(self)
            }),
    {
        self.is_deleting = true;
        self.delete_error = None;
        self.show_delete_dialog = false;
    }

    /// The deletion ended: on success "文件删除成功" is announced and the
    /// page goes back to the main view; on failure the error reads
    /// "删除失败: " and the reason.
    pub fn finish_delete(&mut self, outcome: Result<(), String>) -> (r: DeleteEnd)
        ensures
            !final(self).is_deleting,
            final(self).fields == old(self).fields,
            final(self).original == old(self).original,
            final(self).is_saving == old(self).is_saving,
            final(self).save_error == old(self).save_error,
            final(self).is_extracting == old(self).is_extracting,
            final(self).extract_error == old(self).extract_error,
            final(self).show_delete_dialog == old(self).show_delete_dialog,
            match outcome {
                Ok(_) => opt_view(r.toast) == Some("文件删除成功"@) && r.leave
                    && final(self).delete_error == old(self).delete_error,
                Err(e) => r.toast is None && !r.leave
                    && opt_view(final(self).delete_error) == Some("删除失败: "@ + e@),
            },
    {
        self.is_deleting = false;
        match outcome {
            Ok(()) => DeleteEnd { toast: Some("文件删除成功".to_owned()), leave: true },
            Err(e) => {
                self.delete_error = Some(prefixed("删除失败: ", e.as_str()));
                DeleteEnd { toast: None, leave: false }
            },
        }
    }

    /// Extracting the metadata again starts: its error is cleared.
    pub fn begin_extract(&mut self)
        ensures
            *final(self) == (EditPageState { is_extracting: true, extract_error: None, ..*old(self) }),
    {
        self.is_extracting = true;
        self.extract_error = None;
    }

    /// Extracting ended: on success the fields take the new metadata and
    /// "元数据提取成功" is announced; on failure the error reads
    /// "元数据提取失败: " and the reason.
    pub fn finish_extract(&mut self, outcome: Result<ImportMetadata, String>) -> (toast: Option<String>)
        ensures
            !final(self).is_extracting,
            final(self).original == old(self).original,
            final(self).is_saving == old(self).is_saving,
            final(self).save_error == old(self).save_error,
            final(self).is_deleting == old(self).is_deleting,
            final(self).delete_error == old(self).delete_error,
            final(self).show_delete_dialog == old(self).show_delete_dialog,
            match outcome {
                Ok(m) => final(self).fields@ == edit_fields_of_meta(m@) && opt_view(toast) == Some("元数据提取成功"@)
                    && final(self).extract_error == old(self).extract_error,
                Err(e) => final(self).fields == old(self).fields && toast is None
                    && opt_view(final(self).extract_error) == Some("元数据提取失败: "@ + e@),
            },
    {
        self.is_extracting = false;
        match outcome {
            Ok(m) => {
                self.fields = EditFields::from_metadata(&m);
                Some("元数据提取成功".to_owned())
            },
            Err(e) => {
                self.extract_error = Some(prefixed("元数据提取失败: ", e.as_str()));
                None
            },
        }
    }

    /// "Reset to Original": the fields go back to the file's values and the
    /// save and delete errors are cleared.
    pub fn reset(&mut self)
        ensures
            final(self).fields@ == old(self).original@,
            final(self).original == old(self).original,
            final(self).save_error is None,
            final(self).delete_error is None,
            final(self).is_saving == old(self).is_saving,
            final(self).is_deleting == old(self).is_deleting,
            final(self).is_extracting == old(self).is_extracting,
            final(self).extract_error == old(self).extract_error,
            final(self).show_delete_dialog == old(self).show_delete_dialog,
    {
        self.fields = copy_edit_fields(&self.original);
        self.save_error = None;
        self.delete_error = None;
    }

    /// The labels of the save and delete buttons.
    pub fn button_labels(&self) -> (r: (&'static str, &'static str))
        ensures
            r.0@ == if self.is_saving { "Saving..."@ } else { "Save"@ },
            r.1@ == if self.is_deleting { "Deleting..."@ } else { "Delete"@ },
    {
        (if self.is_saving { "Saving..." } else { "Save" }, if self.is_deleting { "Deleting..." } else { "Delete" })
    }
}

// ---------------------------------------------------------------------------
// The import page
// ---------------------------------------------------------------------------

/// The import page's fields when all are empty.
pub open spec fn empty_import_fields() -> ImportFieldsView {
    ImportFieldsView {
        title: Seq::empty(),
        authors: Seq::empty(),
        year: Seq::empty(),
        publisher: Seq::empty(),
        tags: Seq::empty(),
        summary: Seq::empty(),
        category1: Seq::empty(),
        category2: Seq::empty(),
        category3: Seq::empty(),
    }
}

/// Empty import fields.
fn empty_fields() -> (r: ImportFields)
    ensures
        r@ == empty_import_fields(),
{
    let r = ImportFields::new();
    assert(r@.title =~= Seq::<char>::empty());
    assert(r@.authors =~= Seq::<char>::empty());
    assert(r@.year =~= Seq::<char>::empty());
    assert(r@.publisher =~= Seq::<char>::empty());
    assert(r@.tags =~= Seq::<char>::empty());
    assert(r@.summary =~= Seq::<char>::empty());
    assert(r@.category1 =~= Seq::<char>::empty());
    assert(r@.category2 =~= Seq::<char>::empty());
    assert(r@.category3 =~= Seq::<char>::empty());
    r
}

/// The import page: the chosen file, the URL typed for a download, the
/// fields, whether a task runs and the last error.
#[derive(Clone, Debug)]
pub struct ImportPageState {
    pub selected_file: Option<String>,
    pub download_url: String,
    pub fields: ImportFields,
    pub is_loading: bool,
    pub error_message: Option<String>,
}

impl ImportPageState {
    /// The page when it opens: no file, empty fields.
    pub fn new() -> (r: Self)
        ensures
            r.selected_file is None,
            r.download_url@.len() == 0,
            r.fields@ == empty_import_fields(),
            !r.is_loading,
            r.error_message is None,
    {
        ImportPageState {
            selected_file: None,
            download_url: String::new(),
            fields: empty_fields(),
            is_loading: false,
            error_message: None,
        }
    }

    /// A file was chosen (or the choice cleared).
    pub fn choose_file(&mut self, path: Option<String>)
        ensures
            *final(self) == (ImportPageState { selected_file: path, ..*old(self) }),
    {
        self.selected_file = path;
    }

    /// Extracting the chosen file's metadata starts: the error is cleared.
    pub fn begin_extract(&mut self)
        ensures
            *final(self) == (ImportPageState { is_loading: true, error_message: None, ..*old(self) }),
    {
        self.is_loading = true;
        self.error_message = None;
    }

    /// Extracting ended: the fields take the metadata, or the error reads
    /// "元数据提取失败: " and the reason.
    pub fn finish_extract(&mut self, outcome: Result<ImportMetadata, String>)
        ensures
            !final(self).is_loading,
            final(self).selected_file == old(self).selected_file,
            final(self).download_url == old(self).download_url,
            match outcome {
                Ok(m) => final(self).fields@ == import_fields_after(old(self).fields@, m@)
                    && final(self).error_message == old(self).error_message,
                Err(e) => final(self).fields == old(self).fields
                    && opt_view(final(self).error_message) == Some("元数据提取失败: "@ + e@),
            },
    {
        match outcome {
            Ok(m) => {
                self.fields.apply_metadata(&m);
            },
            Err(e) => {
                self.error_message = Some(prefixed("元数据提取失败: ", e.as_str()));
            },
        }
        self.is_loading = false;
    }

    /// Importing starts: with no file chosen nothing happens (`None`);
    /// otherwise the error is cleared and the file and the metadata to
    /// import with it are returned.
    pub fn begin_import(&mut self) -> (r: Option<(String, ImportMetadata)>)
        ensures
            old(self).selected_file is None ==> r is None && *final(self) == *old(self),
            old(self).selected_file is Some ==> (r matches Some((p, m)) && p == old(self).selected_file->0
                && m@ == import_metadata(old(self).fields@)),
            old(self).selected_file is Some ==> *final(self) == (ImportPageState {
                is_loading: true,
                error_message: None,
                ..*old(self)
            }),
    {
        match &self.selected_file {
            None => None,
            Some(p) => {
                let path = p.clone();
                let m = self.fields.to_metadata();
                self.is_loading = true;
                self.error_message = None;
                Some((path, m))
            },
        }
    }

    /// Importing ended: on success the chosen file and the fields are
    /// cleared and the file list is to be searched again for "*" (`true`);
    /// on failure the error reads "文件导入失败: " and the reason.
    pub fn finish_import(&mut self, outcome: Result<(), String>) -> (search_again: bool)
        ensures
            !final(self).is_loading,
            final(self).download_url == old(self).download_url,
            match outcome {
                Ok(_) => search_again && final(self).selected_file is None
                    && final(self).fields@ == empty_import_fields()
                    && final(self).error_message == old(self).error_message,
                Err(e) => !search_again && final(self).selected_file == old(self).selected_file
                    && final(self).fields == old(self).fields
                    && opt_view(final(self).error_message) == Some("文件导入失败: "@ + e@),
            },
    {
        let r = match outcome {
            Ok(()) => {
                self.selected_file = None;
                self.fields = empty_fields();
                true
            },
            Err(e) => {
                self.error_message = Some(prefixed("文件导入失败: ", e.as_str()));
                false
            },
        };
        self.is_loading = false;
        r
    }
}

} // verus!
