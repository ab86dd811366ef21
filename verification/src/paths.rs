//! The application's well-known paths: derivation from the platform's
//! user directories, and the conversion to configuration defaults.

use vstd::prelude::*;
use vstd::string::StrSliceExecFns;
use vstd::string::StringExecFns;
use crate::config::ConfigMap;
use crate::strutil::push_char;

verus! {

/// The files and directories the application works with.
pub struct Paths {
    pub config_dir: String,
    pub config_file: String,
    pub quickmarks: String,
    pub data_dir: String,
    pub tmp_dir: String,
    pub history: String,
    pub sync_dir: String,
    pub list_dir: String,
    pub plug_dir: String,
}

/// `<base><sep><name>`
pub open spec fn joined(base: Seq<char>, sep: char, name: Seq<char>) -> Seq<char> {
    base.push(sep) + name
}

fn join_path(base: &str, sep: char, name: &str) -> (r: String)
    ensures
        r@ == joined(base@, sep, name@),
{
    let mut s = base.to_owned();
    push_char(&mut s, sep);
    s.append(name);
    s
}

impl Paths {
    /// The map of configuration defaults these paths stand for.
    pub open spec fn as_map(&self) -> Map<Seq<char>, Seq<char>> {
        map![
            "path.config_dir"@ => self.config_dir@,
            "path.config_file"@ => self.config_file@,
            "path.quickmarks"@ => self.quickmarks@,
            "path.data"@ => self.data_dir@,
            "path.tmp"@ => self.tmp_dir@,
            "path.history"@ => self.history@,
            "path.sync"@ => self.sync_dir@,
            "path.list"@ => self.list_dir@,
            "path.plug"@ => self.plug_dir@,
        ]
    }

    /// The paths as a configuration map, keyed `path.<name>`.
    pub fn to_hash_map(&self) -> (r: ConfigMap)
        ensures
            r.wf(),
            r@ == self.as_map(),
    {
        let mut m = ConfigMap::new();
        m.insert("path.config_dir".to_owned(), self.config_dir.clone());
        m.insert("path.config_file".to_owned(), self.config_file.clone());
        m.insert("path.quickmarks".to_owned(), self.quickmarks.clone());
        m.insert("path.data".to_owned(), self.data_dir.clone());
        m.insert("path.tmp".to_owned(), self.tmp_dir.clone());
        m.insert("path.history".to_owned(), self.history.clone());
        m.insert("path.sync".to_owned(), self.sync_dir.clone());
        m.insert("path.list".to_owned(), self.list_dir.clone());
        m.insert("path.plug".to_owned(), self.plug_dir.clone());
        proof {
            assert(m@ =~= self.as_map());
        }
        m
    }
}

/// Derives every application path from the platform's user configuration,
/// data and cache directories, using the given path separator.
pub fn derive_paths(user_config: &str, user_data: &str, user_tmp: &str, sep: char) -> (r: Paths)
    ensures
        ({
            let cd = joined(user_config@, sep, "msailor"@);
            let dd = joined(user_data@, sep, "msailor"@);
            &&& r.config_dir@ == cd
            &&& r.config_file@ == joined(cd, sep, "config"@)
            &&& r.quickmarks@ == joined(cd, sep, "quickmarks"@)
            &&& r.data_dir@ == dd
            &&& r.tmp_dir@ == joined(user_tmp@, sep, "msailor"@)
            &&& r.history@ == joined(dd, sep, "history"@)
            &&& r.sync_dir@ == joined(dd, sep, "sync"@)
            &&& r.list_dir@ == joined(cd, sep, "list"@)
            &&& r.plug_dir@ == joined(dd, sep, "plug"@)
        }),
{
    let config_dir = join_path(user_config, sep, "msailor");
    let data_dir = join_path(user_data, sep, "msailor");
    let tmp_dir = join_path(user_tmp, sep, "msailor");
    let config_file = join_path(config_dir.as_str(), sep, "config");
    let quickmarks = join_path(config_dir.as_str(), sep, "quickmarks");
    let history = join_path(data_dir.as_str(), sep, "history");
    let sync_dir = join_path(data_dir.as_str(), sep, "sync");
    let list_dir = join_path(config_dir.as_str(), sep, "list");
    let plug_dir = join_path(data_dir.as_str(), sep, "plug");
    Paths {
        config_dir,
        config_file,
        quickmarks,
        data_dir,
        tmp_dir,
        history,
        sync_dir,
        list_dir,
        plug_dir,
    }
}

} // verus!
