//! The menus: the fixed help and command lists, and the builder that
//! turns scanned directory content into the ordered, tagged master list.

use vstd::prelude::*;
use vstd::string::StringExecFns;
use vstd::string::StrSliceExecFns;

verus! {

/// The help menu, line by line, in display order.
pub open spec fn help_menu_spec() -> Seq<Seq<char>> {
    seq![
        "q   => Exit"@,
        "e   => Edit"@,
        "k   => Go up"@,
        "j   => Go down"@,
        "g   => Go to top"@,
        "G   => Go to bottom"@,
        "s   => Sync plugins"@,
        "S   => Sync repositories"@,
        "/   => Enter filter mode"@,
        "Esc => Go back to normal mode from any other mode"@,
    ]
}

/// The command menu, line by line, in display order.
pub open spec fn command_menu_spec() -> Seq<Seq<char>> {
    seq![
        "create-sample-repo"@,
        "config-edit"@,
        "history-edit"@,
        "list-add"@,
        "indexwp"@,
    ]
}

/// The fixed list shown in Help mode.
pub fn generate_help_menu_content() -> (r: Vec<String>)
    ensures
        r.deep_view() == help_menu_spec(),
{
    let mut r: Vec<String> = Vec::new();
    r.push("q   => Exit".to_owned());
    r.push("e   => Edit".to_owned());
    r.push("k   => Go up".to_owned());
    r.push("j   => Go down".to_owned());
    r.push("g   => Go to top".to_owned());
    r.push("G   => Go to bottom".to_owned());
    r.push("s   => Sync plugins".to_owned());
    r.push("S   => Sync repositories".to_owned());
    r.push("/   => Enter filter mode".to_owned());
    r.push("Esc => Go back to normal mode from any other mode".to_owned());
    proof {
        assert(r.deep_view() =~= help_menu_spec());
    }
    r
}

/// The fixed list shown in Command mode.
pub fn generate_command_menu_content() -> (r: Vec<String>)
    ensures
        r.deep_view() == command_menu_spec(),
{
    let mut r: Vec<String> = Vec::new();
    r.push("create-sample-repo".to_owned());
    r.push("config-edit".to_owned());
    r.push("history-edit".to_owned());
    r.push("list-add".to_owned());
    r.push("indexwp".to_owned());
    proof {
        assert(r.deep_view() =~= command_menu_spec());
    }
    r
}

/// What one synced repository contributes to the menu: its name, the file
/// names under its list directory, and the lines of its quickmarks file.
pub struct RepoContent {
    pub name: String,
    pub lists: Vec<String>,
    pub quickmarks: Vec<String>,
}

/// The mathematical shape of a [`RepoContent`].
pub struct RepoContentV {
    pub name: Seq<char>,
    pub lists: Seq<Seq<char>>,
    pub quickmarks: Seq<Seq<char>>,
}

impl DeepView for RepoContent {
    type V = RepoContentV;

    open spec fn deep_view(&self) -> RepoContentV {
        RepoContentV {
            name: self.name@,
            lists: self.lists.deep_view(),
            quickmarks: self.quickmarks.deep_view(),
        }
    }
}

/// `[list] <name>`
pub open spec fn list_line(name: Seq<char>) -> Seq<char> {
    "[list] "@ + name
}

/// `[quickmark] <entry>`
pub open spec fn quickmark_line(entry: Seq<char>) -> Seq<char> {
    "[quickmark] "@ + entry
}

/// `[file] <name>`
pub open spec fn file_line(name: Seq<char>) -> Seq<char> {
    "[file] "@ + name
}

/// `[list-<repo>] <name>`
pub open spec fn repo_list_line(repo: Seq<char>, name: Seq<char>) -> Seq<char> {
    "[list-"@ + repo + "] "@ + name
}

/// `[quickmark-<repo>] <entry>`
pub open spec fn repo_quickmark_line(repo: Seq<char>, entry: Seq<char>) -> Seq<char> {
    "[quickmark-"@ + repo + "] "@ + entry
}

/// The lines one synced repository contributes: its lists, then its
/// quickmarks.
pub open spec fn repo_lines(repo: RepoContentV) -> Seq<Seq<char>> {
    repo.lists.map_values(|l: Seq<char>| repo_list_line(repo.name, l))
        + repo.quickmarks.map_values(|q: Seq<char>| repo_quickmark_line(repo.name, q))
}

/// The lines of all synced repositories, in scan order.
pub open spec fn repos_lines(repos: Seq<RepoContentV>) -> Seq<Seq<char>>
    decreases repos.len(),
{
    if repos.len() == 0 {
        Seq::empty()
    } else {
        repos_lines(repos.drop_last()) + repo_lines(repos.last())
    }
}

/// The full master menu: synced repositories first, then local lists,
/// quickmarks and files, and the fixed `[config]` and `[history]` entries.
pub open spec fn menu_content_spec(
    repos: Seq<RepoContentV>,
    lists: Seq<Seq<char>>,
    quickmarks: Seq<Seq<char>>,
    files: Seq<Seq<char>>,
) -> Seq<Seq<char>> {
    repos_lines(repos) + lists.map_values(|l: Seq<char>| list_line(l)) + quickmarks.map_values(
        |q: Seq<char>| quickmark_line(q),
    ) + files.map_values(|f: Seq<char>| file_line(f)) + seq!["[config]"@, "[history]"@]
}

fn join2(a: &str, b: &str) -> (r: String)
    ensures
        r@ == a@ + b@,
{
    let mut s = a.to_owned();
    s.append(b);
    s
}

fn join4(a: &str, b: &str, c: &str, d: &str) -> (r: String)
    ensures
        r@ == a@ + b@ + c@ + d@,
{
    let mut s = a.to_owned();
    s.append(b);
    s.append(c);
    s.append(d);
    s
}

/// Builds the ordered master menu from the content the caller scanned:
/// synced repositories, local list names, quickmark lines and file names.
pub fn generate_menu_content(
    repos: &Vec<RepoContent>,
    lists: &Vec<String>,
    quickmarks: &Vec<String>,
    files: &Vec<String>,
) -> (r: Vec<String>)
    ensures
        r.deep_view() == menu_content_spec(
            repos.deep_view(),
            lists.deep_view(),
            quickmarks.deep_view(),
            files.deep_view(),
        ),
{
    let mut out: Vec<String> = Vec::new();
    let rn = repos.len();
    let mut i: usize = 0;
    proof {
        assert(out.deep_view() =~= repos_lines(repos.deep_view().take(0)));
    }
    while i < rn
        invariant
            i <= rn,
            rn == repos@.len(),
            out.deep_view() == repos_lines(repos.deep_view().take(i as int)),
        decreases rn - i,
    {
        let repo = &repos[i];
        let ghost rv = repos.deep_view()[i as int];
        let ghost base = out.deep_view();
        let ln = repo.lists.len();
        let mut j: usize = 0;
        while j < ln
            invariant
                j <= ln,
                ln == repo.lists@.len(),
                rv == repo.deep_view(),
                out.deep_view() == base + rv.lists.take(j as int).map_values(
                    |l: Seq<char>| repo_list_line(rv.name, l),
                ),
            decreases ln - j,
        {
            let line = join4("[list-", repo.name.as_str(), "] ", repo.lists[j].as_str());
            let ghost before = out.deep_view();
            out.push(line);
            j = j + 1;
            proof {
                assert(out.deep_view() =~= before.push(line@));
                assert(out.deep_view() =~= base + rv.lists.take(j as int).map_values(
                    |l: Seq<char>| repo_list_line(rv.name, l),
                ));
            }
        }
        proof {
            assert(rv.lists.take(ln as int) =~= rv.lists);
        }
        let qn = repo.quickmarks.len();
        let mut k: usize = 0;
        while k < qn
            invariant
                k <= qn,
                qn == repo.quickmarks@.len(),
                rv == repo.deep_view(),
                out.deep_view() == base + rv.lists.map_values(
                    |l: Seq<char>| repo_list_line(rv.name, l),
                ) + rv.quickmarks.take(k as int).map_values(
                    |q: Seq<char>| repo_quickmark_line(rv.name, q),
                ),
            decreases qn - k,
        {
            let line = join4("[quickmark-", repo.name.as_str(), "] ", repo.quickmarks[k].as_str());
            let ghost before = out.deep_view();
            out.push(line);
            k = k + 1;
            proof {
                assert(out.deep_view() =~= before.push(line@));
                assert(out.deep_view() =~= base + rv.lists.map_values(
                    |l: Seq<char>| repo_list_line(rv.name, l),
                ) + rv.quickmarks.take(k as int).map_values(
                    |q: Seq<char>| repo_quickmark_line(rv.name, q),
                ));
            }
        }
        i = i + 1;
        proof {
            assert(rv.quickmarks.take(qn as int) =~= rv.quickmarks);
            let taken = repos.deep_view().take(i as int);
            assert(taken.drop_last() =~= repos.deep_view().take(i as int - 1));
            assert(taken.last() == rv);
            assert(out.deep_view() =~= repos_lines(taken));
        }
    }
    proof {
        assert(repos.deep_view().take(rn as int) =~= repos.deep_view());
    }
    let ghost rpart = repos_lines(repos.deep_view());
    let ln = lists.len();
    let mut j: usize = 0;
    while j < ln
        invariant
            j <= ln,
            ln == lists@.len(),
            rpart == repos_lines(repos.deep_view()),
            out.deep_view() == rpart + lists.deep_view().take(j as int).map_values(
                |l: Seq<char>| list_line(l),
            ),
        decreases ln - j,
    {
        let line = join2("[list] ", lists[j].as_str());
        let ghost before = out.deep_view();
        out.push(line);
        j = j + 1;
        proof {
            assert(out.deep_view() =~= before.push(line@));
            assert(out.deep_view() =~= rpart + lists.deep_view().take(j as int).map_values(
                |l: Seq<char>| list_line(l),
            ));
        }
    }
    proof {
        assert(lists.deep_view().take(ln as int) =~= lists.deep_view());
    }
    let ghost lpart = rpart + lists.deep_view().map_values(|l: Seq<char>| list_line(l));
    let qn = quickmarks.len();
    let mut k: usize = 0;
    while k < qn
        invariant
            k <= qn,
            qn == quickmarks@.len(),
            lpart == rpart + lists.deep_view().map_values(|l: Seq<char>| list_line(l)),
            out.deep_view() == lpart + quickmarks.deep_view().take(k as int).map_values(
                |q: Seq<char>| quickmark_line(q),
            ),
        decreases qn - k,
    {
        let line = join2("[quickmark] ", quickmarks[k].as_str());
        let ghost before = out.deep_view();
        out.push(line);
        k = k + 1;
        proof {
            assert(out.deep_view() =~= before.push(line@));
            assert(out.deep_view() =~= lpart + quickmarks.deep_view().take(k as int).map_values(
                |q: Seq<char>| quickmark_line(q),
            ));
        }
    }
    proof {
        assert(quickmarks.deep_view().take(qn as int) =~= quickmarks.deep_view());
    }
    let ghost qpart = lpart + quickmarks.deep_view().map_values(|q: Seq<char>| quickmark_line(q));
    let fn_ = files.len();
    let mut m: usize = 0;
    while m < fn_
        invariant
            m <= fn_,
            fn_ == files@.len(),
            qpart == lpart + quickmarks.deep_view().map_values(|q: Seq<char>| quickmark_line(q)),
            out.deep_view() == qpart + files.deep_view().take(m as int).map_values(
                |f: Seq<char>| file_line(f),
            ),
        decreases fn_ - m,
    {
        let line = join2("[file] ", files[m].as_str());
        let ghost before = out.deep_view();
        out.push(line);
        m = m + 1;
        proof {
            assert(out.deep_view() =~= before.push(line@));
            assert(out.deep_view() =~= qpart + files.deep_view().take(m as int).map_values(
                |f: Seq<char>| file_line(f),
            ));
        }
    }
    proof {
        assert(files.deep_view().take(fn_ as int) =~= files.deep_view());
    }
    let ghost before_fixed = out.deep_view();
    out.push("[config]".to_owned());
    out.push("[history]".to_owned());
    proof {
        assert(out.deep_view() =~= before_fixed.push("[config]"@).push("[history]"@));
        assert(out.deep_view() =~= menu_content_spec(
            repos.deep_view(),
            lists.deep_view(),
            quickmarks.deep_view(),
            files.deep_view(),
        ));
    }
    out
}

} // verus!
