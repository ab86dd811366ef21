//! The configuration store: an ordered key/value map with unique keys,
//! and the parser that fills it from the lines of a configuration file.
//!
//! A line is ignored when it is blank or starts with `#`; otherwise it is
//! split at its first `=` and both halves are trimmed.  Defaults are
//! merged afterwards without overwriting parsed values.

use vstd::pervasive::VecAdditionalExecFns;
use vstd::prelude::*;
use vstd::string::StrSliceExecFns;
use crate::strutil::{trim, trim_spec};

verus! {

/// The map denoted by an entry list: later entries win (the parser and
/// the store both keep keys unique, so the order never matters there).
pub open spec fn entries_map(s: Seq<(Seq<char>, Seq<char>)>) -> Map<Seq<char>, Seq<char>>
    decreases s.len(),
{
    if s.len() == 0 {
        Map::empty()
    } else {
        entries_map(s.drop_last()).insert(s.last().0, s.last().1)
    }
}

proof fn lemma_entries_map_dom(s: Seq<(Seq<char>, Seq<char>)>, k: Seq<char>)
    ensures
        entries_map(s).contains_key(k) <==> exists|i: int| 0 <= i < s.len() && (#[trigger] s[i]).0
            == k,
    decreases s.len(),
{
    if s.len() > 0 {
        lemma_entries_map_dom(s.drop_last(), k);
        if s.last().0 == k {
            assert(s[s.len() - 1].0 == k);
        } else if entries_map(s).contains_key(k) {
            let i = choose|i: int| 0 <= i < s.drop_last().len() && (#[trigger] s.drop_last()[i]).0
                == k;
            assert(s[i].0 == k);
        } else {
            if exists|i: int| 0 <= i < s.len() && (#[trigger] s[i]).0 == k {
                let i = choose|i: int| 0 <= i < s.len() && (#[trigger] s[i]).0 == k;
                assert(i < s.len() - 1);
                assert(s.drop_last()[i].0 == k);
            }
        }
    }
}

/// A key/value configuration map.  Entries are held in insertion order
/// and keys are unique.
pub struct ConfigMap {
    entries: Vec<(String, String)>,
}

impl View for ConfigMap {
    type V = Map<Seq<char>, Seq<char>>;

    closed spec fn view(&self) -> Map<Seq<char>, Seq<char>> {
        entries_map(self.entries.deep_view())
    }
}

impl ConfigMap {
    /// Keys are pairwise distinct.
    pub closed spec fn wf(&self) -> bool {
        forall|i: int, j: int|
            0 <= i < j < self.entries.deep_view().len() ==> (#[trigger] self.entries.deep_view()[i]).0 != (
            #[trigger] self.entries.deep_view()[j]).0
    }

    /// An empty configuration.
    pub fn new() -> (r: ConfigMap)
        ensures
            r.wf(),
            r@ == Map::<Seq<char>, Seq<char>>::empty(),
    {
        let r = ConfigMap { entries: Vec::new() };
        proof {
            assert(r.entries.deep_view() =~= Seq::<(Seq<char>, Seq<char>)>::empty());
        }
        r
    }

    fn position_of(&self, key: &str) -> (r: Option<usize>)
        ensures
            match r {
                Some(i) => i < self.entries@.len() && self.entries.deep_view()[i as int].0 == key@,
                None => forall|i: int|
                    0 <= i < self.entries.deep_view().len() ==> (
                    #[trigger] self.entries.deep_view()[i]).0 != key@,
            },
    {
        let n = self.entries.len();
        let mut i: usize = 0;
        while i < n
            invariant
                i <= n,
                n == self.entries@.len(),
                forall|j: int|
                    0 <= j < i ==> (#[trigger] self.entries.deep_view()[j]).0 != key@,
            decreases n - i,
        {
            if crate::strutil::str_eq(self.entries[i].0.as_str(), key) {
                return Some(i);
            }
            i = i + 1;
        }
        None
    }

    /// Whether `key` is present.
    pub fn contains_key(&self, key: &str) -> (r: bool)
        ensures
            r == self@.contains_key(key@),
    {
        let p = self.position_of(key);
        proof {
            lemma_entries_map_dom(self.entries.deep_view(), key@);
        }
        match p {
            Some(_) => true,
            None => false,
        }
    }

    /// The value stored under `key`, if any.
    pub fn get(&self, key: &str) -> (r: Option<&String>)
        requires
            self.wf(),
        ensures
            match r {
                Some(v) => self@.contains_key(key@) && v@ == self@[key@],
                None => !self@.contains_key(key@),
            },
    {
        proof {
            lemma_entries_map_dom(self.entries.deep_view(), key@);
        }
        match self.position_of(key) {
            Some(i) => {
                proof {
                    lemma_entries_map_at(self.entries.deep_view(), i as int);
                }
                Some(&self.entries[i].1)
            },
            None => None,
        }
    }

    /// Stores `value` under `key`, replacing any previous value.
    pub fn insert(&mut self, key: String, value: String)
        requires
            old(self).wf(),
        ensures
            final(self).wf(),
            final(self)@ == old(self)@.insert(key@, value@),
    {
        let ghost olds = self.entries.deep_view();
        match self.position_of(key.as_str()) {
            Some(i) => {
                self.entries.set(i, (key, value));
                proof {
                    assert(self.entries.deep_view() =~= olds.update(i as int, (key@, value@)));
                    lemma_entries_map_update(olds, i as int, key@, value@);
                    assert(self@ =~= old(self)@.insert(key@, value@));
                }
            },
            None => {
                self.entries.push((key, value));
                proof {
                    assert(self.entries.deep_view() =~= olds.push((key@, value@)));
                    assert(self.entries.deep_view().drop_last() =~= olds);
                }
            },
        }
    }

    /// Stores `value` under `key` only when `key` is absent.
    pub fn or_insert(&mut self, key: String, value: String)
        requires
            old(self).wf(),
        ensures
            final(self).wf(),
            final(self)@ == if old(self)@.contains_key(key@) {
                old(self)@
            } else {
                old(self)@.insert(key@, value@)
            },
    {
        if !self.contains_key(key.as_str()) {
            self.insert(key, value);
        }
    }

    /// Adds every entry of `defaults` whose key is still absent; parsed
    /// values always win over defaults.
    pub fn merge_defaults(&mut self, defaults: &ConfigMap)
        requires
            old(self).wf(),
            defaults.wf(),
        ensures
            final(self).wf(),
            final(self)@ == defaults@.union_prefer_right(old(self)@),
    {
        let ghost dents = defaults.entries.deep_view();
        let ghost base = old(self)@;
        let n = defaults.entries.len();
        let mut i: usize = 0;
        proof {
            assert(dents.take(0) =~= Seq::<(Seq<char>, Seq<char>)>::empty());
            assert(self@ =~= entries_map(dents.take(0)).union_prefer_right(base));
        }
        while i < n
            invariant
                i <= n,
                n == dents.len(),
                dents == defaults.entries.deep_view(),
                defaults.wf(),
                self.wf(),
                self@ == entries_map(dents.take(i as int)).union_prefer_right(base),
            decreases n - i,
        {
            let ghost pre = dents.take(i as int);
            let ghost post = dents.take(i as int + 1);
            let ghost k = dents[i as int].0;
            let ghost v = dents[i as int].1;
            proof {
                assert(post.drop_last() =~= pre);
                assert(post.last() == dents[i as int]);
                assert(entries_map(post) == entries_map(pre).insert(k, v));
                lemma_entries_map_dom(pre, k);
                assert(forall|a: int|
                    0 <= a < pre.len() ==> (#[trigger] pre[a]).0 == dents[a].0);
                assert(!entries_map(pre).contains_key(k));
            }
            let entry = &defaults.entries[i];
            let key = entry.0.clone();
            let value = entry.1.clone();
            self.or_insert(key, value);
            proof {
                assert(self@ =~= entries_map(post).union_prefer_right(base));
            }
            i = i + 1;
        }
        proof {
            assert(dents.take(n as int) =~= dents);
        }
    }

    /// The number of entries.
    pub fn len(&self) -> (r: usize)
        requires
            self.wf(),
        ensures
            r == self@.dom().len(),
    {
        proof {
            lemma_entries_map_card(self.entries.deep_view());
        }
        self.entries.len()
    }

    /// The entries in insertion order; every pair is bound in the map.
    pub fn pairs(&self) -> (r: &Vec<(String, String)>)
        requires
            self.wf(),
        ensures
            r.deep_view().len() == self@.dom().len(),
            forall|i: int|
                0 <= i < r.deep_view().len() ==> self@.contains_key(
                    (#[trigger] r.deep_view()[i]).0,
                ) && self@[r.deep_view()[i].0] == r.deep_view()[i].1,
    {
        proof {
            let s = self.entries.deep_view();
            lemma_entries_map_card(s);
            assert forall|i: int| 0 <= i < s.len() implies self@.contains_key((#[trigger] s[i]).0)
                && self@[s[i].0] == s[i].1 by {
                lemma_entries_map_dom(s, s[i].0);
                lemma_entries_map_at(s, i);
            }
        }
        &self.entries
    }
}

proof fn lemma_entries_map_at(s: Seq<(Seq<char>, Seq<char>)>, i: int)
    requires
        0 <= i < s.len(),
        forall|a: int, b: int| 0 <= a < b < s.len() ==> (#[trigger] s[a]).0 != (#[trigger] s[b]).0,
    ensures
        entries_map(s).contains_key(s[i].0),
        entries_map(s)[s[i].0] == s[i].1,
    decreases s.len(),
{
    lemma_entries_map_dom(s, s[i].0);
    if i == s.len() - 1 {
    } else {
        assert(forall|a: int, b: int|
            0 <= a < b < s.drop_last().len() ==> (#[trigger] s.drop_last()[a]).0 != (
            #[trigger] s.drop_last()[b]).0);
        lemma_entries_map_at(s.drop_last(), i);
        assert(s[i].0 != s.last().0);
    }
}

proof fn lemma_entries_map_update(s: Seq<(Seq<char>, Seq<char>)>, i: int, k: Seq<char>, v: Seq<char>)
    requires
        0 <= i < s.len(),
        s[i].0 == k,
        forall|a: int, b: int| 0 <= a < b < s.len() ==> (#[trigger] s[a]).0 != (#[trigger] s[b]).0,
    ensures
        entries_map(s.update(i, (k, v))) =~= entries_map(s).insert(k, v),
    decreases s.len(),
{
    let t = s.update(i, (k, v));
    if i == s.len() - 1 {
        assert(t.drop_last() =~= s.drop_last());
        assert(t.last() == (k, v));
    } else {
        assert(t.drop_last() =~= s.drop_last().update(i, (k, v)));
        assert(forall|a: int, b: int|
            0 <= a < b < s.drop_last().len() ==> (#[trigger] s.drop_last()[a]).0 != (
            #[trigger] s.drop_last()[b]).0);
        assert(s.drop_last()[i].0 == k);
        lemma_entries_map_update(s.drop_last(), i, k, v);
        assert(t.last() == s.last());
        assert(s.last().0 != k);
        assert(entries_map(t) =~= entries_map(s).insert(k, v));
    }
}

proof fn lemma_entries_map_card(s: Seq<(Seq<char>, Seq<char>)>)
    requires
        forall|a: int, b: int| 0 <= a < b < s.len() ==> (#[trigger] s[a]).0 != (#[trigger] s[b]).0,
    ensures
        entries_map(s).dom().finite(),
        entries_map(s).dom().len() == s.len(),
    decreases s.len(),
{
    if s.len() > 0 {
        let rest = s.drop_last();
        assert(forall|a: int, b: int|
            0 <= a < b < rest.len() ==> (#[trigger] rest[a]).0 != (#[trigger] rest[b]).0);
        lemma_entries_map_card(rest);
        lemma_entries_map_dom(rest, s.last().0);
        assert(forall|i: int| 0 <= i < rest.len() ==> (#[trigger] rest[i]).0 == s[i].0);
        assert(!entries_map(rest).contains_key(s.last().0));
        assert(entries_map(s).dom() =~= entries_map(rest).dom().insert(s.last().0));
        vstd::set::axiom_set_insert_len(entries_map(rest).dom(), s.last().0);
    }
}


/// The position of the first `=` in the line, if any.
pub open spec fn find_eq(line: Seq<char>) -> Option<int>
    decreases line.len(),
{
    if line.len() == 0 {
        None
    } else if line[0] == '=' {
        Some(0)
    } else {
        match find_eq(line.drop_first()) {
            None => None,
            Some(i) => Some(i + 1),
        }
    }
}

/// A line the parser ignores: blank, or a comment starting with `#`.
pub open spec fn line_ignored(line: Seq<char>) -> bool {
    trim_spec(line).len() == 0 || (line.len() > 0 && line[0] == '#')
}

/// The configuration denoted by the lines of a file: every kept line is
/// split at its first `=` and both halves are trimmed; lines without `=`
/// are dropped, and a repeated key keeps the last value.
pub open spec fn config_of_lines(lines: Seq<Seq<char>>) -> Map<Seq<char>, Seq<char>>
    decreases lines.len(),
{
    if lines.len() == 0 {
        Map::empty()
    } else {
        let m = config_of_lines(lines.drop_last());
        let line = lines.last();
        if line_ignored(line) {
            m
        } else {
            match find_eq(line) {
                Some(p) => m.insert(
                    trim_spec(line.subrange(0, p)),
                    trim_spec(line.subrange(p + 1, line.len() as int)),
                ),
                None => m,
            }
        }
    }
}

proof fn lemma_find_eq_some(line: Seq<char>, i: int)
    requires
        0 <= i < line.len(),
        line[i] == '=',
        forall|j: int| 0 <= j < i ==> line[j] != '=',
    ensures
        find_eq(line) == Some(i),
    decreases i,
{
    if i > 0 {
        let rest = line.drop_first();
        assert(forall|j: int| 0 <= j < i - 1 ==> rest[j] != '=');
        lemma_find_eq_some(rest, i - 1);
    }
}

proof fn lemma_find_eq_none(line: Seq<char>)
    requires
        forall|j: int| 0 <= j < line.len() ==> line[j] != '=',
    ensures
        find_eq(line) is None,
    decreases line.len(),
{
    if line.len() > 0 {
        let rest = line.drop_first();
        assert(forall|j: int| 0 <= j < rest.len() ==> rest[j] != '=');
        lemma_find_eq_none(rest);
    }
}

fn find_eq_pos(line: &str) -> (r: Option<usize>)
    ensures
        match r {
            Some(i) => i < line@.len() && find_eq(line@) == Some(i as int),
            None => find_eq(line@) is None,
        },
{
    let n = line.unicode_len();
    let mut i: usize = 0;
    while i < n
        invariant
            i <= n,
            n == line@.len(),
            forall|j: int| 0 <= j < i ==> line@[j] != '=',
        decreases n - i,
    {
        if line.get_char(i) == '=' {
            proof {
                lemma_find_eq_some(line@, i as int);
            }
            return Some(i);
        }
        i = i + 1;
    }
    proof {
        lemma_find_eq_none(line@);
    }
    None
}

/// Parses the lines of a configuration file into a [`ConfigMap`].
pub fn parse_config_lines(lines: &Vec<String>) -> (r: ConfigMap)
    ensures
        r.wf(),
        r@ == config_of_lines(lines.deep_view()),
{
    let mut m = ConfigMap::new();
    let n = lines.len();
    let mut i: usize = 0;
    proof {
        assert(lines.deep_view().take(0) =~= Seq::<Seq<char>>::empty());
    }
    while i < n
        invariant
            i <= n,
            n == lines@.len(),
            m.wf(),
            m@ == config_of_lines(lines.deep_view().take(i as int)),
        decreases n - i,
    {
        let ghost pre = lines.deep_view().take(i as int);
        let ghost post = lines.deep_view().take(i as int + 1);
        proof {
            assert(post.drop_last() =~= pre);
            assert(post.last() == lines@[i as int]@);
        }
        let line = &lines[i];
        let ln = line.as_str().unicode_len();
        let trimmed = trim(line.as_str());
        let skip = trimmed.as_str().unicode_len() == 0 || (ln > 0 && line.as_str().get_char(0)
            == '#');
        if !skip {
            match find_eq_pos(line.as_str()) {
                Some(p) => {
                    let key = trim(line.as_str().substring_char(0, p));
                    let value = trim(line.as_str().substring_char(p + 1, ln));
                    m.insert(key, value);
                },
                None => {},
            }
        }
        i = i + 1;
    }
    proof {
        assert(lines.deep_view().take(n as int) =~= lines.deep_view());
    }
    m
}
} // verus!
