//! Repository helpers: the local directory name a repository URL clones
//! into, and the fixed content of a freshly created sample repository.

use vstd::prelude::*;
use vstd::string::StrSliceExecFns;
use crate::strutil::{trim, trim_spec};

verus! {

/// The text after the last `/` of `s` (all of `s` when it has none).
pub open spec fn last_segment(s: Seq<char>) -> Seq<char>
    decreases s.len(),
{
    if s.len() == 0 {
        Seq::empty()
    } else if s.last() == '/' {
        Seq::empty()
    } else {
        last_segment(s.drop_last()).push(s.last())
    }
}

proof fn lemma_last_segment_from(s: Seq<char>, start: int)
    requires
        0 <= start <= s.len(),
        forall|j: int| start <= j < s.len() ==> s[j] != '/',
        start == 0 || s[start - 1] == '/',
    ensures
        last_segment(s) == s.subrange(start, s.len() as int),
    decreases s.len(),
{
    if s.len() == 0 {
        assert(s.subrange(0, 0) =~= Seq::<char>::empty());
    } else if s.last() == '/' {
        assert(start == s.len());
        assert(s.subrange(start, s.len() as int) =~= Seq::<char>::empty());
    } else {
        let rest = s.drop_last();
        assert(start < s.len());
        assert(forall|j: int| start <= j < rest.len() ==> rest[j] != '/');
        lemma_last_segment_from(rest, start);
        assert(rest.subrange(start, rest.len() as int).push(s.last()) =~= s.subrange(
            start,
            s.len() as int,
        ));
    }
}

/// The directory name a repository URL clones into: the text after the
/// last `/`, trimmed.
pub fn repo_name(url: &str) -> (r: String)
    ensures
        r@ == trim_spec(last_segment(url@)),
{
    let n = url.unicode_len();
    let mut start: usize = n;
    while start > 0 && url.get_char(start - 1) != '/'
        invariant
            start <= n,
            n == url@.len(),
            forall|j: int| start <= j < n ==> url@[j] != '/',
        decreases start,
    {
        start = start - 1;
    }
    proof {
        lemma_last_segment_from(url@, start as int);
    }
    trim(url.substring_char(start, n))
}

/// One file of the sample repository: its relative path and its lines.
pub struct SampleFile {
    pub path: String,
    pub lines: Vec<String>,
}

/// The mathematical shape of a [`SampleFile`].
#[verifier::ext_equal]
pub struct SampleFileV {
    pub path: Seq<char>,
    pub lines: Seq<Seq<char>>,
}

impl DeepView for SampleFile {
    type V = SampleFileV;

    open spec fn deep_view(&self) -> SampleFileV {
        SampleFileV { path: self.path@, lines: self.lines.deep_view() }
    }
}

/// The lines of the sample repository's ignore file.
pub open spec fn sample_gitignore_spec() -> Seq<Seq<char>> {
    seq!["/*"@, "!.gitignore"@, "!config"@, "!quickmark"@, "!source"@, "!list/"@]
}

/// The lines of the sample repository's configuration file.
pub open spec fn sample_config_spec() -> Seq<Seq<char>> {
    seq![
        "# Configuration file for the application"@,
        "# Default paths (override by specifying new values):"@,
        ""@,
        "# Path to the configuration directory"@,
        "# The default path is determined based on the OS:"@,
        "# - On Linux: $XDG_CONFIG_HOME or ~/.config/msailor"@,
        "# - On Windows: %APPDATA%\\msailor"@,
        "# - On macOS: $HOME/Library/Application Support/msailor"@,
        "config_path = /path/to/override/config"@,
        ""@,
        "# Path to the data directory"@,
        "# The default path is determined based on the OS:"@,
        "# - On Linux: $XDG_DATA_HOME or ~/.local/share/msailor"@,
        "# - On Windows: %LOCALAPPDATA%\\msailor"@,
        "# - On macOS: $HOME/Library/Application Support/msailor"@,
        "data_path = /path/to/override/data"@,
        ""@,
        "# Path to the temporary directory"@,
        "# The default path is determined based on the OS:"@,
        "# - On Linux: $XDG_CACHE_HOME or ~/.cache/msailor"@,
        "# - On Windows: %TEMP%\\msailor"@,
        "# - On macOS: $HOME/Library/Caches/msailor"@,
        "tmp_path = /path/to/override/tmp"@,
        ""@,
        "# Path to the history file"@,
        "history_path = /path/to/override/history"@,
        ""@,
        "# Path to the sync directory"@,
        "sync_path = /path/to/override/sync"@,
        ""@,
        "# Path to the list directory"@,
        "list_path = /path/to/override/list"@,
        ""@,
        "# Path to the plugins directory"@,
        "plug_path = /path/to/override/plug"@,
        ""@,
    ]
}

/// The files of the sample repository, in creation order.
pub open spec fn sample_repo_spec() -> Seq<SampleFileV> {
    seq![
        SampleFileV { path: ".gitignore"@, lines: sample_gitignore_spec() },
        SampleFileV { path: "config/config"@, lines: sample_config_spec() },
        SampleFileV { path: "quickmark"@, lines: seq!["quickmark content"@] },
        SampleFileV { path: "source"@, lines: seq!["source content"@] },
        SampleFileV { path: "list/list1"@, lines: Seq::empty() },
    ]
}

fn line_vec1(a: &str) -> (r: Vec<String>)
    ensures
        r.deep_view() == seq![a@],
{
    let mut v: Vec<String> = Vec::new();
    v.push(a.to_owned());
    proof {
        assert(v.deep_view() =~= seq![a@]);
    }
    v
}

/// The content of a freshly created sample repository, file by file; the
/// caller writes the files and initialises the repository around them.
pub fn sample_repo_files() -> (r: Vec<SampleFile>)
    ensures
        r.deep_view() == sample_repo_spec(),
{
    let mut gitignore: Vec<String> = Vec::new();
    gitignore.push("/*".to_owned());
    gitignore.push("!.gitignore".to_owned());
    gitignore.push("!config".to_owned());
    gitignore.push("!quickmark".to_owned());
    gitignore.push("!source".to_owned());
    gitignore.push("!list/".to_owned());
    proof {
        assert(gitignore.deep_view() =~= sample_gitignore_spec());
    }
    let mut config: Vec<String> = Vec::new();
    config.push("# Configuration file for the application".to_owned());
    config.push("# Default paths (override by specifying new values):".to_owned());
    config.push("".to_owned());
    config.push("# Path to the configuration directory".to_owned());
    config.push("# The default path is determined based on the OS:".to_owned());
    config.push("# - On Linux: $XDG_CONFIG_HOME or ~/.config/msailor".to_owned());
    config.push("# - On Windows: %APPDATA%\\msailor".to_owned());
    config.push("# - On macOS: $HOME/Library/Application Support/msailor".to_owned());
    config.push("config_path = /path/to/override/config".to_owned());
    config.push("".to_owned());
    config.push("# Path to the data directory".to_owned());
    config.push("# The default path is determined based on the OS:".to_owned());
    config.push("# - On Linux: $XDG_DATA_HOME or ~/.local/share/msailor".to_owned());
    config.push("# - On Windows: %LOCALAPPDATA%\\msailor".to_owned());
    config.push("# - On macOS: $HOME/Library/Application Support/msailor".to_owned());
    config.push("data_path = /path/to/override/data".to_owned());
    config.push("".to_owned());
    config.push("# Path to the temporary directory".to_owned());
    config.push("# The default path is determined based on the OS:".to_owned());
    config.push("# - On Linux: $XDG_CACHE_HOME or ~/.cache/msailor".to_owned());
    config.push("# - On Windows: %TEMP%\\msailor".to_owned());
    config.push("# - On macOS: $HOME/Library/Caches/msailor".to_owned());
    config.push("tmp_path = /path/to/override/tmp".to_owned());
    config.push("".to_owned());
    config.push("# Path to the history file".to_owned());
    config.push("history_path = /path/to/override/history".to_owned());
    config.push("".to_owned());
    config.push("# Path to the sync directory".to_owned());
    config.push("sync_path = /path/to/override/sync".to_owned());
    config.push("".to_owned());
    config.push("# Path to the list directory".to_owned());
    config.push("list_path = /path/to/override/list".to_owned());
    config.push("".to_owned());
    config.push("# Path to the plugins directory".to_owned());
    config.push("plug_path = /path/to/override/plug".to_owned());
    config.push("".to_owned());
    proof {
        assert(config.deep_view() =~= sample_config_spec());
    }
    let mut files: Vec<SampleFile> = Vec::new();
    files.push(SampleFile { path: ".gitignore".to_owned(), lines: gitignore });
    files.push(SampleFile { path: "config/config".to_owned(), lines: config });
    files.push(SampleFile { path: "quickmark".to_owned(), lines: line_vec1("quickmark content") });
    files.push(SampleFile { path: "source".to_owned(), lines: line_vec1("source content") });
    let empty_lines: Vec<String> = Vec::new();
    proof {
        assert(empty_lines.deep_view() =~= Seq::<Seq<char>>::empty());
    }
    files.push(SampleFile { path: "list/list1".to_owned(), lines: empty_lines });
    proof {
        assert(files.deep_view() =~~= sample_repo_spec());
    }
    files
}

} // verus!
