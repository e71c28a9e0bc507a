//! Data model of the index: result records, settings, and the plain-value
//! shapes in which the caller hands over what it read from the host.

use vstd::prelude::*;
use vstd::string::StringExecFns;

verus! {

/// Kind of an indexed record; decides the ranking lane of a search hit.
#[derive(Clone, Copy, PartialEq, Eq, Structural, Debug)]
pub enum ResultType {
    File,
    Folder,
    Application,
}

/// Whether file and folder search uses the in-memory index or defers to a
/// host-native facility (the latter contributes no file results here).
#[derive(Clone, Copy, PartialEq, Eq, Structural, Debug)]
pub enum SearchMode {
    WindowsNative,
    CustomIndex,
}

/// One entry of the index, keyed by `id` (the absolute path, or for an
/// enumerated application its install location).
pub struct SearchResult {
    pub id: String,
    pub name: String,
    pub result_type: ResultType,
    pub path: String,
    /// Seconds since the epoch, best effort.
    pub last_modified: u64,
}

/// Mathematical shape of a [`SearchResult`].
pub struct RecordV {
    pub id: Seq<char>,
    pub name: Seq<char>,
    pub result_type: ResultType,
    pub path: Seq<char>,
    pub last_modified: u64,
}

impl View for SearchResult {
    type V = RecordV;

    open spec fn view(&self) -> RecordV {
        RecordV {
            id: self.id@,
            name: self.name@,
            result_type: self.result_type,
            path: self.path@,
            last_modified: self.last_modified,
        }
    }
}

impl Clone for SearchResult {
    fn clone(&self) -> (r: Self)
        ensures
            r@ == self@,
    {
        SearchResult {
            id: self.id.clone(),
            name: self.name.clone(),
            result_type: self.result_type,
            path: self.path.clone(),
            last_modified: self.last_modified,
        }
    }
}

/// Configuration snapshot consumed by one rebuild.
pub struct Settings {
    /// Roots to walk, in priority order.
    pub search_paths: Vec<String>,
    /// Substrings whose presence in a path (case-insensitively) excludes it.
    pub ignored_directories: Vec<String>,
    /// Opaque launcher hotkey; not consumed by this crate.
    pub hotkey: String,
    /// Hard cap on filesystem entries admitted per rebuild, over all roots.
    pub max_index_files: usize,
    /// Cap on non-application results returned per query.
    pub max_search_results: usize,
    pub search_mode: SearchMode,
}

/// Mathematical shape of [`Settings`].
pub struct SettingsV {
    pub search_paths: Seq<Seq<char>>,
    pub ignored_directories: Seq<Seq<char>>,
    pub hotkey: Seq<char>,
    pub max_index_files: nat,
    pub max_search_results: nat,
    pub search_mode: SearchMode,
}

impl View for Settings {
    type V = SettingsV;

    open spec fn view(&self) -> SettingsV {
        SettingsV {
            search_paths: self.search_paths@.map_values(|p: String| p@),
            ignored_directories: self.ignored_directories@.map_values(|p: String| p@),
            hotkey: self.hotkey@,
            max_index_files: self.max_index_files as nat,
            max_search_results: self.max_search_results as nat,
            search_mode: self.search_mode,
        }
    }
}

/// What the filesystem walk reports one entry to be.
#[derive(Clone, Copy, PartialEq, Eq, Structural, Debug)]
pub enum EntryKind {
    File,
    Directory,
    /// Neither a plain file nor a directory (for instance a symbolic link);
    /// such entries are never admitted into the index.
    Other,
}

/// One visited filesystem entry, as plain values: the walker hands a
/// sequence of these to [`crate::indexer::Indexer::index_files`].
pub struct FsEntry {
    /// Absolute path of the entry.
    pub path: String,
    pub kind: EntryKind,
    /// Modification time in seconds since the epoch; `None` when the
    /// metadata could not be read, which aborts the rebuild.
    pub modified: Option<u64>,
}

/// Mathematical shape of an [`FsEntry`].
pub struct FsEntryV {
    pub path: Seq<char>,
    pub kind: EntryKind,
    pub modified: Option<u64>,
}

impl View for FsEntry {
    type V = FsEntryV;

    open spec fn view(&self) -> FsEntryV {
        FsEntryV { path: self.path@, kind: self.kind, modified: self.modified }
    }
}

/// The default ignore list: build outputs, VCS metadata, IDE settings,
/// dependency and cache directories.
pub open spec fn default_ignored_views() -> Seq<Seq<char>> {
    seq![
        "node_modules"@,
        "target"@,
        "build"@,
        "dist"@,
        ".git"@,
        ".svn"@,
        "vendor"@,
        ".vscode"@,
        ".idea"@,
        "__pycache__"@,
        "venv"@,
    ]
}

impl Settings {
    /// The default configuration for a host whose user directory is `root`:
    /// walk `root`, skip common build, cache and VCS directories, cap the
    /// index at a hundred thousand entries, return ten results per query,
    /// and answer file queries from the custom index.
    pub fn default_with_root(root: String) -> (r: Settings)
        ensures
            r@.search_paths == seq![root@],
            r@.ignored_directories == default_ignored_views(),
            r@.hotkey == "CommandOrControl+Space"@,
            r@.max_index_files == 100000,
            r@.max_search_results == 10,
            r@.search_mode == SearchMode::CustomIndex,
    {
        let mut search_paths: Vec<String> = Vec::new();
        search_paths.push(root);
        let mut ignored: Vec<String> = Vec::new();
        ignored.push(String::from_str("node_modules"));
        ignored.push(String::from_str("target"));
        ignored.push(String::from_str("build"));
        ignored.push(String::from_str("dist"));
        ignored.push(String::from_str(".git"));
        ignored.push(String::from_str(".svn"));
        ignored.push(String::from_str("vendor"));
        ignored.push(String::from_str(".vscode"));
        ignored.push(String::from_str(".idea"));
        ignored.push(String::from_str("__pycache__"));
        ignored.push(String::from_str("venv"));
        let r = Settings {
            search_paths,
            ignored_directories: ignored,
            hotkey: String::from_str("CommandOrControl+Space"),
            max_index_files: 100000,
            max_search_results: 10,
            search_mode: SearchMode::CustomIndex,
        };
        proof {
            assert(r@.search_paths =~= seq![r.search_paths@[0]@]);
            assert(r@.ignored_directories =~= default_ignored_views());
        }
        r
    }
}

/// The views of a sequence of records.
pub open spec fn record_views(s: Seq<SearchResult>) -> Seq<RecordV> {
    s.map_values(|r: SearchResult| r@)
}

/// The views of a sequence of walked entries.
pub open spec fn entry_views(s: Seq<FsEntry>) -> Seq<FsEntryV> {
    s.map_values(|e: FsEntry| e@)
}

} // verus!
