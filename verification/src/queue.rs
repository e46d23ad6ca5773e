//! The conversion queue that the desktop interface shows: the files added,
//! their status, and the progress of a running batch as the worker reports
//! its results.

use vstd::prelude::*;
use vstd::string::*;
use crate::text::{decimal, push_decimal};
use crate::utils::{
    InputFormat, detect_format, format_of_extension, lowered_extension, format_name, path_file_name,
    path_file_name_of,
};
use crate::i18n::{I18n, UiText, ui_text};

verus! {

/// The status of a queued file. The progress of a file being converted is
/// kept in thousandths.
#[derive(Debug, Clone)]
pub enum FileStatus {
    Pending,
    Converting(u16),
    Completed,
    Failed(String),
    Skipped(String),
}

/// The label shown for a status.
pub open spec fn status_label(s: FileStatus) -> Seq<char> {
    match s {
        FileStatus::Pending => "Pending"@,
        FileStatus::Converting(_) => "Converting"@,
        FileStatus::Completed => "Done"@,
        FileStatus::Failed(_) => "Failed"@,
        FileStatus::Skipped(_) => "Skipped"@,
    }
}

impl FileStatus {
    /// The label shown for the status.
    pub fn label(&self) -> (r: &'static str)
        ensures
            r@ == status_label(*self),
    {
        proof {
            reveal_strlit("Pending");
            reveal_strlit("Converting");
            reveal_strlit("Done");
            reveal_strlit("Failed");
            reveal_strlit("Skipped");
        }
        match self {
            FileStatus::Pending => "Pending",
            FileStatus::Converting(_) => "Converting",
            FileStatus::Completed => "Done",
            FileStatus::Failed(_) => "Failed",
            FileStatus::Skipped(_) => "Skipped",
        }
    }
}

/// A file in the queue.
#[derive(Debug, Clone)]
pub struct FileEntry {
    pub path: String,
    pub status: FileStatus,
    pub file_size: u64,
    pub format: String,
    pub name: String,
}

/// The name a queued file is shown under: its final name, or `?`.
pub open spec fn display_name(path: Seq<char>) -> Seq<char> {
    match path_file_name_of(path) {
        Some(n) => n,
        None => "?"@,
    }
}

/// Whether `e` is the entry a newly queued file gets: pending, with its
/// size, the name of its format and its display name.
pub open spec fn is_new_entry(e: FileEntry, path: Seq<char>, file_size: u64) -> bool {
    &&& e.path@ == path
    &&& e.status == FileStatus::Pending
    &&& e.file_size == file_size
    &&& e.format@ == format_name(format_of_extension(lowered_extension(path)))
    &&& e.name@ == display_name(path)
}

impl FileEntry {
    /// The entry of a file newly added to the queue.
    pub fn pending(path: &str, file_size: u64) -> (r: Self)
        ensures
            is_new_entry(r, path@, file_size),
    {
        let format = detect_format(path);
        let name = match path_file_name(path) {
            Some(n) => n,
            None => {
                proof {
                    reveal_strlit("?");
                }
                "?".to_owned()
            },
        };
        FileEntry {
            path: path.to_owned(),
            status: FileStatus::Pending,
            file_size,
            format: format.name().to_owned(),
            name,
        }
    }
}

/// Where the queue's work stands.
#[derive(Debug, Clone)]
pub enum AppState {
    Idle,
    Converting,
    Completed,
    Error(String),
}

/// What the conversion worker reports.
#[derive(Debug)]
pub enum ConvertMessage {
    /// A file was converted; its Markdown.
    FileDone { path: String, markdown: String },
    /// A file could not be converted; why.
    FileFailed { path: String, error: String },
    /// Every file has been processed.
    BatchComplete,
    /// The whole batch failed.
    BatchError(String),
}

/// Whether a path is in the queue.
pub open spec fn is_queued(files: Seq<FileEntry>, path: Seq<char>) -> bool {
    exists|i: int| 0 <= i < files.len() && (#[trigger] files[i]).path@ == path
}

/// Whether `k` is the first entry of the queue with the path.
pub open spec fn first_with_path(files: Seq<FileEntry>, path: Seq<char>, k: int) -> bool {
    &&& 0 <= k < files.len()
    &&& files[k].path@ == path
    &&& forall|j: int| 0 <= j < k ==> (#[trigger] files[j]).path@ != path
}

/// Whether no path is queued twice.
pub open spec fn distinct_paths(files: Seq<FileEntry>) -> bool {
    forall|i: int, j: int| 0 <= i < j < files.len() ==> (#[trigger] files[i]).path@ != (#[trigger] files[j]).path@
}

/// The entry with another status.
pub open spec fn with_status(e: FileEntry, s: FileStatus) -> FileEntry {
    FileEntry { path: e.path, status: s, file_size: e.file_size, format: e.format, name: e.name }
}

/// The queue with the first entry of the path given the status; unchanged
/// when the path is not queued.
pub open spec fn set_status(files: Seq<FileEntry>, path: Seq<char>, s: FileStatus) -> Seq<FileEntry> {
    if is_queued(files, path) {
        let k = choose|k: int| first_with_path(files, path, k);
        files.update(k, with_status(files[k], s))
    } else {
        files
    }
}

proof fn lemma_first_unique(files: Seq<FileEntry>, path: Seq<char>, k: int)
    requires
        first_with_path(files, path, k),
    ensures
        is_queued(files, path),
        forall|m: int| #[trigger] first_with_path(files, path, m) ==> m == k,
{
    assert(files[k].path@ == path);
}

proof fn lemma_first_exists(files: Seq<FileEntry>, path: Seq<char>)
    requires
        is_queued(files, path),
    ensures
        exists|k: int| first_with_path(files, path, k),
    decreases files.len(),
{
    let t = files.drop_last();
    if is_queued(t, path) {
        lemma_first_exists(t, path);
        let k = choose|k: int| first_with_path(t, path, k);
        assert(first_with_path(files, path, k)) by {
            assert forall|j: int| 0 <= j < k implies (#[trigger] files[j]).path@ != path by {
                assert(files[j] == t[j]);
            }
        }
    } else {
        let k = files.len() - 1;
        assert forall|j: int| 0 <= j < k implies (#[trigger] files[j]).path@ != path by {
            assert(files[j] == t[j]);
        }
        let i = choose|i: int| 0 <= i < files.len() && (#[trigger] files[i]).path@ == path;
        if i < k {
            assert(t[i] == files[i]);
        }
        assert(first_with_path(files, path, k));
    }
}

/// A report of the worker changes only a status: every queued file keeps
/// its place, path, size, format and name, and the queue keeps its length.
pub proof fn law_reports_change_only_status(files: Seq<FileEntry>, path: Seq<char>, s: FileStatus)
    ensures
        set_status(files, path, s).len() == files.len(),
        forall|i: int| 0 <= i < files.len() ==> {
            let e = #[trigger] set_status(files, path, s)[i];
            &&& e.path == files[i].path
            &&& e.file_size == files[i].file_size
            &&& e.format == files[i].format
            &&& e.name == files[i].name
        },
        distinct_paths(files) ==> distinct_paths(set_status(files, path, s)),
{
    if is_queued(files, path) {
        lemma_first_exists(files, path);
    }
}

/// The notice of a finished batch: `label: done/total`.
pub open spec fn count_notice(label: Seq<char>, done: nat, total: nat) -> Seq<char> {
    label + ": "@ + decimal(done) + "/"@ + decimal(total)
}

/// Whether the notice is there and reads `text`.
pub open spec fn notice_reads(n: Option<String>, text: Seq<char>) -> bool {
    match n {
        Some(s) => s@ == text,
        None => false,
    }
}

/// Whether the state is an error whose message reads `text`.
pub open spec fn error_reads(st: AppState, text: Seq<char>) -> bool {
    match st {
        AppState::Error(s) => s@ == text,
        _ => false,
    }
}

/// The queue and the progress of its batch.
pub struct ConversionQueue {
    pub files: Vec<FileEntry>,
    pub state: AppState,
    pub progress_done: usize,
    pub progress_total: usize,
    pub preview_text: String,
    pub last_results: Vec<(String, String)>,
    pub selected_preview: usize,
    pub last_selected_preview: usize,
    pub notification: Option<String>,
}

impl ConversionQueue {
    /// An empty queue with nothing running.
    pub fn new() -> (r: Self)
        ensures
            r.files@.len() == 0,
            r.state == AppState::Idle,
            r.progress_done == 0,
            r.progress_total == 0,
            r.preview_text@.len() == 0,
            r.last_results@.len() == 0,
            r.selected_preview == 0,
            r.last_selected_preview == 0,
            r.notification is None,
    {
        ConversionQueue {
            files: Vec::new(),
            state: AppState::Idle,
            progress_done: 0,
            progress_total: 0,
            preview_text: String::new(),
            last_results: Vec::new(),
            selected_preview: 0,
            last_selected_preview: 0,
            notification: None,
        }
    }

    /// The position of the first entry with the path.
    fn find_path(&self, path: &str) -> (r: Option<usize>)
        ensures
            match r {
                Some(k) => first_with_path(self.files@, path@, k as int),
                None => !is_queued(self.files@, path@),
            },
    {
        let mut i: usize = 0;
        while i < self.files.len()
            invariant
                i <= self.files@.len(),
                forall|j: int| 0 <= j < i ==> (#[trigger] self.files@[j]).path@ != path@,
            decreases self.files@.len() - i,
        {
            if crate::text::str_eq(self.files[i].path.as_str(), path) {
                return Some(i);
            }
            i = i + 1;
        }
        None
    }

    /// Add a file to the queue when its format is supported and it is not
    /// queued yet; it is queued as pending.
    pub fn add_file(&mut self, path: &str, file_size: u64)
        ensures
            ({
                let added = format_of_extension(lowered_extension(path@)) != InputFormat::Unknown
                    && !is_queued(old(self).files@, path@);
                &&& added ==> final(self).files@.len() == old(self).files@.len() + 1
                    && final(self).files@.take(old(self).files@.len() as int) == old(self).files@
                    && is_new_entry(final(self).files@.last(), path@, file_size)
                &&& !added ==> final(self).files@ == old(self).files@
            }),
            distinct_paths(old(self).files@) ==> distinct_paths(final(self).files@),
            final(self).state == old(self).state,
            final(self).progress_done == old(self).progress_done,
            final(self).progress_total == old(self).progress_total,
            final(self).preview_text == old(self).preview_text,
            final(self).last_results == old(self).last_results,
            final(self).selected_preview == old(self).selected_preview,
            final(self).last_selected_preview == old(self).last_selected_preview,
            final(self).notification == old(self).notification,
    {
        if detect_format(path) != InputFormat::Unknown && self.find_path(path).is_none() {
            let entry = FileEntry::pending(path, file_size);
            let ghost before = self.files@;
            self.files.push(entry);
            assert(self.files@.take(before.len() as int) =~= before);
            assert forall|i: int| 0 <= i < before.len() implies (#[trigger] self.files@[i]) == before[i] by {}
        }
    }

    /// Start converting the queue: nothing happens when it is empty;
    /// otherwise the progress and results are reset and the paths to
    /// convert are given, in queue order.
    pub fn start_conversion(&mut self) -> (r: Option<Vec<String>>)
        ensures
            old(self).files@.len() == 0 ==> r is None && *final(self) == *old(self),
            old(self).files@.len() > 0 ==> {
                &&& r matches Some(paths) && paths@.len() == old(self).files@.len()
                    && forall|i: int| 0 <= i < paths@.len() ==> (#[trigger] paths@[i])@ == old(self).files@[i].path@
                &&& final(self).state == AppState::Converting
                &&& final(self).progress_done == 0
                &&& final(self).progress_total == old(self).files@.len()
                &&& final(self).last_results@.len() == 0
                &&& final(self).selected_preview == 0
                &&& final(self).last_selected_preview == 0
                &&& final(self).files == old(self).files
                &&& final(self).preview_text == old(self).preview_text
                &&& final(self).notification == old(self).notification
            },
    {
        if self.files.len() == 0 {
            return None;
        }
        self.state = AppState::Converting;
        self.progress_done = 0;
        self.progress_total = self.files.len();
        self.last_results = Vec::new();
        self.selected_preview = 0;
        self.last_selected_preview = 0;
        let mut paths: Vec<String> = Vec::new();
        let mut i: usize = 0;
        while i < self.files.len()
            invariant
                i <= self.files@.len(),
                paths@.len() == i,
                forall|j: int| 0 <= j < i ==> (#[trigger] paths@[j])@ == self.files@[j].path@,
            decreases self.files@.len() - i,
        {
            let p = self.files[i].path.clone();
            paths.push(p);
            i = i + 1;
        }
        Some(paths)
    }

    /// Give the first entry of the path the status.
    fn set_file_status(&mut self, path: &str, status: FileStatus)
        ensures
            final(self).files@ == set_status(old(self).files@, path@, status),
            final(self).state == old(self).state,
            final(self).progress_done == old(self).progress_done,
            final(self).progress_total == old(self).progress_total,
            final(self).preview_text == old(self).preview_text,
            final(self).last_results == old(self).last_results,
            final(self).selected_preview == old(self).selected_preview,
            final(self).last_selected_preview == old(self).last_selected_preview,
            final(self).notification == old(self).notification,
    {
        match self.find_path(path) {
            Some(k) => {
                proof {
                    lemma_first_unique(self.files@, path@, k as int);
                }
                let ghost before = self.files@;
                let e = self.files.remove(k);
                let updated = FileEntry {
                    path: e.path,
                    status,
                    file_size: e.file_size,
                    format: e.format,
                    name: e.name,
                };
                self.files.insert(k, updated);
                assert(self.files@ =~= before.update(k as int, with_status(before[k as int], status)));
            },
            None => {},
        }
    }

    /// Take in one report of the conversion worker: count the file, keep its
    /// result (the first result becomes the preview) and mark it in the
    /// queue; or, when the batch ends, set the state and the notice.
    pub fn receive(&mut self, msg: ConvertMessage, i18n: &I18n)
        requires
            (msg is FileDone || msg is FileFailed) ==> old(self).progress_done < usize::MAX,
        ensures
            match msg {
                ConvertMessage::FileDone { path, markdown } => {
                    &&& final(self).progress_done == old(self).progress_done + 1
                    &&& final(self).last_results@ == old(self).last_results@.push((path, markdown))
                    &&& final(self).files@ == set_status(old(self).files@, path@, FileStatus::Completed)
                    &&& old(self).last_results@.len() == 0 ==> final(self).selected_preview == 0
                        && final(self).last_selected_preview == 0
                        && final(self).preview_text@ == markdown@
                    &&& old(self).last_results@.len() > 0 ==> final(self).selected_preview == old(self).selected_preview
                        && final(self).last_selected_preview == old(self).last_selected_preview
                        && final(self).preview_text == old(self).preview_text
                    &&& final(self).state == old(self).state
                    &&& final(self).progress_total == old(self).progress_total
                    &&& final(self).notification == old(self).notification
                },
                ConvertMessage::FileFailed { path, error } => {
                    &&& final(self).progress_done == old(self).progress_done + 1
                    &&& final(self).files@ == set_status(old(self).files@, path@, FileStatus::Failed(error))
                    &&& final(self).last_results == old(self).last_results
                    &&& final(self).selected_preview == old(self).selected_preview
                    &&& final(self).last_selected_preview == old(self).last_selected_preview
                    &&& final(self).preview_text == old(self).preview_text
                    &&& final(self).state == old(self).state
                    &&& final(self).progress_total == old(self).progress_total
                    &&& final(self).notification == old(self).notification
                },
                ConvertMessage::BatchComplete => {
                    let done = old(self).last_results@.len();
                    let total = old(self).progress_total as nat;
                    &&& done > 0 ==> final(self).state == AppState::Completed
                        && notice_reads(final(self).notification,
                            count_notice(ui_text(UiText::Completed, i18n.spec_language()), done, total))
                    &&& done == 0 ==> error_reads(final(self).state, ui_text(UiText::Error, i18n.spec_language()))
                        && notice_reads(final(self).notification,
                            count_notice(ui_text(UiText::Error, i18n.spec_language()), 0, total))
                    &&& final(self).progress_done == old(self).progress_done
                    &&& final(self).files == old(self).files
                    &&& final(self).last_results == old(self).last_results
                    &&& final(self).selected_preview == old(self).selected_preview
                    &&& final(self).last_selected_preview == old(self).last_selected_preview
                    &&& final(self).preview_text == old(self).preview_text
                    &&& final(self).progress_total == old(self).progress_total
                },
                ConvertMessage::BatchError(e) => {
                    &&& error_reads(final(self).state, e@)
                    &&& notice_reads(final(self).notification, ui_text(UiText::Error, i18n.spec_language()) + ": "@ + e@)
                    &&& final(self).progress_done == old(self).progress_done
                    &&& final(self).files == old(self).files
                    &&& final(self).last_results == old(self).last_results
                    &&& final(self).selected_preview == old(self).selected_preview
                    &&& final(self).last_selected_preview == old(self).last_selected_preview
                    &&& final(self).preview_text == old(self).preview_text
                    &&& final(self).progress_total == old(self).progress_total
                },
            },
    {
        match msg {
            ConvertMessage::FileDone { path, markdown } => {
                self.progress_done = self.progress_done + 1;
                if self.last_results.len() == 0 {
                    self.selected_preview = 0;
                    self.last_selected_preview = 0;
                    self.preview_text = markdown.clone();
                }
                self.set_file_status(path.as_str(), FileStatus::Completed);
                self.last_results.push((path, markdown));
            },
            ConvertMessage::FileFailed { path, error } => {
                self.progress_done = self.progress_done + 1;
                self.set_file_status(path.as_str(), FileStatus::Failed(error));
            },
            ConvertMessage::BatchComplete => {
                proof {
                    reveal_strlit(": ");
                    reveal_strlit("/");
                }
                let done = self.last_results.len();
                let total = self.progress_total;
                if done > 0 {
                    self.state = AppState::Completed;
                    let mut note = i18n.completed().to_owned();
                    note.append(": ");
                    push_decimal(&mut note, done as u128);
                    note.append("/");
                    push_decimal(&mut note, total as u128);
                    self.notification = Some(note);
                } else {
                    self.state = AppState::Error(i18n.error().to_owned());
                    let mut note = i18n.error().to_owned();
                    note.append(": ");
                    push_decimal(&mut note, 0);
                    note.append("/");
                    push_decimal(&mut note, total as u128);
                    self.notification = Some(note);
                }
            },
            ConvertMessage::BatchError(e) => {
                proof {
                    reveal_strlit(": ");
                }
                let mut note = i18n.error().to_owned();
                note.append(": ");
                note.append(e.as_str());
                self.notification = Some(note);
                self.state = AppState::Error(e);
            },
        }
    }
}

} // verus!
