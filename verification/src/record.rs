//! The durable data: one record per download, and the user's preferences.

use vstd::prelude::*;
use vstd::string::*;

verus! {

/// Where a download stands.
#[derive(Clone, Copy, Debug, PartialEq, Eq, Structural)]
pub enum DownloadStatus {
    InProgress,
    Completed,
    Failed,
    Cancelled,
}

/// An instant in UTC: whole seconds since the start of 1970 and the
/// nanoseconds past that second.
#[derive(Clone, Copy, Debug, PartialEq, Eq, Structural)]
pub struct Timestamp {
    pub secs: i64,
    pub nanos: u32,
}

/// The durable state of one download. The URL is its key.
#[derive(Debug, PartialEq, Eq)]
pub struct DownloadRecord {
    pub url: String,
    pub filename: String,
    pub file_path: Option<String>,
    pub status: DownloadStatus,
    pub date_added: Timestamp,
    pub date_completed: Option<Timestamp>,
    pub downloaded_bytes: u64,
    pub total_bytes: u64,
    pub was_paused: bool,
}

/// A record as a value of mathematics: texts are sequences of characters.
pub ghost struct RecordView {
    pub url: Seq<char>,
    pub filename: Seq<char>,
    pub file_path: Option<Seq<char>>,
    pub status: DownloadStatus,
    pub date_added: Timestamp,
    pub date_completed: Option<Timestamp>,
    pub downloaded_bytes: u64,
    pub total_bytes: u64,
    pub was_paused: bool,
}

/// The text of an optional string.
pub open spec fn text_of(s: Option<String>) -> Option<Seq<char>> {
    match s {
        Some(text) => Some(text@),
        None => None,
    }
}

impl View for DownloadRecord {
    type V = RecordView;

    open spec fn view(&self) -> RecordView {
        RecordView {
            url: self.url@,
            filename: self.filename@,
            file_path: text_of(self.file_path),
            status: self.status,
            date_added: self.date_added,
            date_completed: self.date_completed,
            downloaded_bytes: self.downloaded_bytes,
            total_bytes: self.total_bytes,
            was_paused: self.was_paused,
        }
    }
}

impl RecordView {
    /// What holds of every record in a journal: a completed download has its
    /// file, all of its bytes and the time it finished; a failed or
    /// cancelled one has the time it ended.
    pub open spec fn wf(self) -> bool {
        &&& self.status == DownloadStatus::Completed ==> self.file_path is Some && self.downloaded_bytes
            == self.total_bytes && self.date_completed is Some
        &&& self.status == DownloadStatus::Failed || self.status == DownloadStatus::Cancelled
            ==> self.date_completed is Some
    }

    /// Whether the download is picked up again by itself when the program
    /// starts: it was running, and the user had not paused it.
    pub open spec fn resumes_by_itself(self) -> bool {
        self.status == DownloadStatus::InProgress && !self.was_paused
    }
}

/// The record of a download that has just been added: in progress, not
/// paused, nothing on disk, size unknown.
pub open spec fn fresh_record(url: Seq<char>, filename: Seq<char>, now: Timestamp) -> RecordView {
    RecordView {
        url,
        filename,
        file_path: None,
        status: DownloadStatus::InProgress,
        date_added: now,
        date_completed: None,
        downloaded_bytes: 0,
        total_bytes: 0,
        was_paused: false,
    }
}

/// A copy of an optional string.
pub fn clone_text(s: &Option<String>) -> (copy: Option<String>)
    ensures
        text_of(copy) == text_of(*s),
{
    match s {
        Some(text) => Some(text.clone()),
        None => None,
    }
}

impl Clone for DownloadRecord {
    fn clone(&self) -> (copy: Self)
        ensures
            copy@ == self@,
    {
        DownloadRecord {
            url: self.url.clone(),
            filename: self.filename.clone(),
            file_path: clone_text(&self.file_path),
            status: self.status,
            date_added: self.date_added,
            date_completed: self.date_completed,
            downloaded_bytes: self.downloaded_bytes,
            total_bytes: self.total_bytes,
            was_paused: self.was_paused,
        }
    }
}

impl DownloadRecord {
    /// The record of a download of `url` added at `now`.
    pub fn fresh(url: &str, filename: &str, now: Timestamp) -> (record: DownloadRecord)
        ensures
            record@ == fresh_record(url@, filename@, now),
    {
        DownloadRecord {
            url: String::from_str(url),
            filename: String::from_str(filename),
            file_path: None,
            status: DownloadStatus::InProgress,
            date_added: now,
            date_completed: None,
            downloaded_bytes: 0,
            total_bytes: 0,
            was_paused: false,
        }
    }

    /// Tests what holds of every record in a journal.
    pub fn is_well_formed(&self) -> (ok: bool)
        ensures
            ok == self@.wf(),
    {
        match self.status {
            DownloadStatus::InProgress => true,
            DownloadStatus::Completed => self.file_path.is_some() && self.downloaded_bytes
                == self.total_bytes && self.date_completed.is_some(),
            DownloadStatus::Failed => self.date_completed.is_some(),
            DownloadStatus::Cancelled => self.date_completed.is_some(),
        }
    }

    /// Whether the download is picked up again by itself at startup.
    pub fn resumes_by_itself(&self) -> (yes: bool)
        ensures
            yes == self@.resumes_by_itself(),
    {
        match self.status {
            DownloadStatus::InProgress => !self.was_paused,
            _ => false,
        }
    }
}

/// How a stored download is shown: by its status, with a download that was
/// paused when last seen told apart from one that was running.
#[derive(Clone, Copy, Debug, PartialEq, Eq, Structural)]
pub enum DisplayState {
    Running,
    Paused,
    Completed,
    Failed,
    Cancelled,
}

/// What the user can do with a stored download.
#[derive(Clone, Copy, Debug, PartialEq, Eq, Structural)]
pub struct RowActions {
    /// Pick the download up where it stopped.
    pub resume: bool,
    /// Start the download again from nothing.
    pub restart: bool,
    /// Open the finished file, or the directory it is in.
    pub open: bool,
}

impl RecordView {
    /// How the record is shown.
    pub open spec fn display_state(self) -> DisplayState {
        match self.status {
            DownloadStatus::InProgress => if self.was_paused {
                DisplayState::Paused
            } else {
                DisplayState::Running
            },
            DownloadStatus::Completed => DisplayState::Completed,
            DownloadStatus::Failed => DisplayState::Failed,
            DownloadStatus::Cancelled => DisplayState::Cancelled,
        }
    }

    /// What the user can do with the record: resume what is in progress,
    /// restart what was cancelled or has failed, open what is complete.
    pub open spec fn row_actions(self) -> RowActions {
        RowActions {
            resume: self.status == DownloadStatus::InProgress,
            restart: self.status == DownloadStatus::Cancelled || self.status == DownloadStatus::Failed,
            open: self.status == DownloadStatus::Completed,
        }
    }
}

impl DownloadRecord {
    /// How the record is shown.
    pub fn display_state(&self) -> (state: DisplayState)
        ensures
            state == self@.display_state(),
    {
        match self.status {
            DownloadStatus::InProgress => if self.was_paused {
                DisplayState::Paused
            } else {
                DisplayState::Running
            },
            DownloadStatus::Completed => DisplayState::Completed,
            DownloadStatus::Failed => DisplayState::Failed,
            DownloadStatus::Cancelled => DisplayState::Cancelled,
        }
    }

    /// What the user can do with the record.
    pub fn row_actions(&self) -> (actions: RowActions)
        ensures
            actions == self@.row_actions(),
    {
        match self.status {
            DownloadStatus::InProgress => RowActions { resume: true, restart: false, open: false },
            DownloadStatus::Completed => RowActions { resume: false, restart: false, open: true },
            DownloadStatus::Failed => RowActions { resume: false, restart: true, open: false },
            DownloadStatus::Cancelled => RowActions { resume: false, restart: true, open: false },
        }
    }
}

/// The user's preferences. Only the download directory matters to the
/// engine.
#[derive(Debug, PartialEq, Eq)]
pub struct AppConfig {
    pub download_directory: Option<String>,
    pub window_width: Option<i32>,
    pub window_height: Option<i32>,
}

/// Where downloads go when neither the user nor the system names a place.
pub open spec fn fallback_directory() -> Seq<char> {
    seq!['.']
}

/// The directory that downloads are written to: the one the user chose, or
/// else the one the system offers, or else the current directory.
pub open spec fn directory_for(chosen: Option<Seq<char>>, system_default: Option<Seq<char>>) -> Seq<char> {
    match chosen {
        Some(dir) => dir,
        None => match system_default {
            Some(dir) => dir,
            None => fallback_directory(),
        },
    }
}

impl AppConfig {
    /// Preferences with nothing set.
    pub fn empty() -> (config: AppConfig)
        ensures
            config.download_directory is None,
            config.window_width is None,
            config.window_height is None,
    {
        AppConfig { download_directory: None, window_width: None, window_height: None }
    }

    /// A copy of the preferences.
    pub fn duplicate(&self) -> (copy: AppConfig)
        ensures
            text_of(copy.download_directory) == text_of(self.download_directory),
            copy.window_width == self.window_width,
            copy.window_height == self.window_height,
    {
        AppConfig {
            download_directory: clone_text(&self.download_directory),
            window_width: self.window_width,
            window_height: self.window_height,
        }
    }

    /// Makes `path` the directory that downloads are written to.
    pub fn set_download_directory(&mut self, path: &str)
        ensures
            text_of(final(self).download_directory) == Some(path@),
            final(self).window_width == old(self).window_width,
            final(self).window_height == old(self).window_height,
    {
        self.download_directory = Some(String::from_str(path));
    }

    /// Remembers the size of the window.
    pub fn set_window_size(&mut self, width: i32, height: i32)
        ensures
            final(self).download_directory == old(self).download_directory,
            final(self).window_width == Some(width),
            final(self).window_height == Some(height),
    {
        self.window_width = Some(width);
        self.window_height = Some(height);
    }

    /// The directory that downloads are written to, given the directory
    /// that the system offers for downloads, if it offers one.
    pub fn get_download_directory(&self, system_default: Option<&str>) -> (dir: String)
        ensures
            dir@ == directory_for(
                text_of(self.download_directory),
                match system_default {
                    Some(d) => Some(d@),
                    None => None,
                },
            ),
    {
        match &self.download_directory {
            Some(dir) => dir.clone(),
            None => match system_default {
                Some(dir) => String::from_str(dir),
                None => {
                    proof {
                        reveal_strlit(".");
                    }
                    let dir = String::from_str(".");
                    assert(dir@ =~= fallback_directory());
                    dir
                },
            },
        }
    }
}

} // verus!
