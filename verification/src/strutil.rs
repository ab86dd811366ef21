//! Verified text helpers: whitespace handling, trimming, tokenising,
//! substring search, prefix tests, and the few trusted bridges to `std`
//! string routines that vstd does not specify.

use vstd::prelude::*;
use vstd::string::StrSliceExecFns;
use vstd::string::StringExecFns;

verus! {

/// The whitespace characters this library recognises (ASCII whitespace).
pub open spec fn is_ws(c: char) -> bool {
    c == ' ' || c == '\t' || c == '\n' || c == '\r'
}

/// Executable test for [`is_ws`].
pub fn is_ws_char(c: char) -> (r: bool)
    ensures
        r == is_ws(c),
{
    c == ' ' || c == '\t' || c == '\n' || c == '\r'
}

/// `s` without its leading whitespace.
pub open spec fn trim_start_spec(s: Seq<char>) -> Seq<char>
    decreases s.len(),
{
    if s.len() > 0 && is_ws(s[0]) {
        trim_start_spec(s.drop_first())
    } else {
        s
    }
}

/// `s` without its trailing whitespace.
pub open spec fn trim_end_spec(s: Seq<char>) -> Seq<char>
    decreases s.len(),
{
    if s.len() > 0 && is_ws(s.last()) {
        trim_end_spec(s.drop_last())
    } else {
        s
    }
}

/// `s` without leading and trailing whitespace.
pub open spec fn trim_spec(s: Seq<char>) -> Seq<char> {
    trim_end_spec(trim_start_spec(s))
}

proof fn lemma_trim_start_skip(s: Seq<char>, i: int)
    requires
        0 <= i <= s.len(),
        forall|j: int| 0 <= j < i ==> is_ws(s[j]),
    ensures
        trim_start_spec(s) == trim_start_spec(s.subrange(i, s.len() as int)),
    decreases i,
{
    if i == 0 {
        assert(s.subrange(0, s.len() as int) =~= s);
    } else {
        assert(is_ws(s[0]));
        let rest = s.drop_first();
        assert(trim_start_spec(s) == trim_start_spec(rest));
        assert(forall|j: int| 0 <= j < i - 1 ==> is_ws(rest[j]));
        lemma_trim_start_skip(rest, i - 1);
        assert(rest.subrange(i - 1, rest.len() as int) =~= s.subrange(i, s.len() as int));
    }
}

proof fn lemma_trim_end_skip(s: Seq<char>, i: int)
    requires
        0 <= i <= s.len(),
        forall|j: int| i <= j < s.len() ==> is_ws(s[j]),
    ensures
        trim_end_spec(s) == trim_end_spec(s.subrange(0, i)),
    decreases s.len() - i,
{
    if i == s.len() {
        assert(s.subrange(0, s.len() as int) =~= s);
    } else {
        assert(is_ws(s.last()));
        let rest = s.drop_last();
        assert(trim_end_spec(s) == trim_end_spec(rest));
        assert(forall|j: int| i <= j < rest.len() ==> is_ws(rest[j]));
        lemma_trim_end_skip(rest, i);
        assert(rest.subrange(0, i) =~= s.subrange(0, i));
    }
}

/// The characters of `s`, one per vector slot.
pub fn str_chars(s: &str) -> (r: Vec<char>)
    ensures
        r@ == s@,
{
    let n = s.unicode_len();
    let mut r: Vec<char> = Vec::new();
    let mut i: usize = 0;
    while i < n
        invariant
            i <= n,
            n == s@.len(),
            r@ == s@.subrange(0, i as int),
        decreases n - i,
    {
        r.push(s.get_char(i));
        i = i + 1;
        assert(r@ =~= s@.subrange(0, i as int));
    }
    assert(r@ =~= s@);
    r
}

/// `s` with leading and trailing whitespace removed.
pub fn trim(s: &str) -> (r: String)
    ensures
        r@ == trim_spec(s@),
{
    let n = s.unicode_len();
    let mut start: usize = 0;
    while start < n && is_ws_char(s.get_char(start))
        invariant
            start <= n,
            n == s@.len(),
            forall|j: int| 0 <= j < start ==> is_ws(s@[j]),
        decreases n - start,
    {
        start = start + 1;
    }
    let mut end: usize = n;
    while end > start && is_ws_char(s.get_char(end - 1))
        invariant
            start <= end <= n,
            n == s@.len(),
            forall|j: int| end <= j < n ==> is_ws(s@[j]),
        decreases end,
    {
        end = end - 1;
    }
    let r = s.substring_char(start, end).to_owned();
    proof {
        lemma_trim_start_skip(s@, start as int);
        let t = s@.subrange(start as int, n as int);
        assert(trim_start_spec(s@) == trim_start_spec(t));
        if t.len() > 0 {
            assert(t[0] == s@[start as int]);
        }
        assert(trim_start_spec(t) == t);
        assert(forall|j: int| end - start <= j < t.len() ==> is_ws(t[j]));
        lemma_trim_end_skip(t, end - start);
        let u = t.subrange(0, end - start);
        if u.len() > 0 {
            assert(u.last() == s@[end - 1]);
        }
        assert(trim_end_spec(u) == u);
        assert(u =~= s@.subrange(start as int, end as int));
    }
    r
}

/// `needle` occurs contiguously inside `hay`.
pub open spec fn is_substring(needle: Seq<char>, hay: Seq<char>) -> bool {
    exists|k: int|
        0 <= k && k + needle.len() <= hay.len() && #[trigger] hay.subrange(
            k,
            k + needle.len() as int,
        ) == needle
}

fn match_at(hay: &Vec<char>, needle: &Vec<char>, k: usize) -> (r: bool)
    requires
        k + needle@.len() <= hay@.len(),
    ensures
        r == (hay@.subrange(k as int, k as int + needle@.len() as int) == needle@),
{
    let n = needle.len();
    let hl = hay.len();
    let mut j: usize = 0;
    while j < n
        invariant
            j <= n,
            n == needle@.len(),
            hl == hay@.len(),
            k + n <= hl,
            forall|jj: int| 0 <= jj < j ==> hay@[k + jj] == needle@[jj],
        decreases n - j,
    {
        if hay[k + j] != needle[j] {
            proof {
                let w = hay@.subrange(k as int, k as int + n as int);
                assert(w[j as int] == hay@[k + j]);
            }
            return false;
        }
        j = j + 1;
    }
    proof {
        assert(hay@.subrange(k as int, k as int + n as int) =~= needle@);
    }
    true
}

/// Substring search over character vectors.
pub fn contains_chars(hay: &Vec<char>, needle: &Vec<char>) -> (r: bool)
    ensures
        r == is_substring(needle@, hay@),
{
    let nl = needle.len();
    let hl = hay.len();
    if nl > hl {
        return false;
    }
    let count = hl - nl;
    let mut k: usize = 0;
    while k < count
        invariant
            nl <= hl,
            hl == hay@.len(),
            nl == needle@.len(),
            count == hl - nl,
            k <= count,
            forall|kk: int|
                0 <= kk < k ==> #[trigger] hay@.subrange(kk, kk + needle@.len() as int)
                    != needle@,
        decreases count - k,
    {
        if match_at(hay, needle, k) {
            return true;
        }
        k = k + 1;
    }
    if match_at(hay, needle, count) {
        return true;
    }
    false
}

/// Substring search on strings.
pub fn contains_str(hay: &str, needle: &str) -> (r: bool)
    ensures
        r == is_substring(needle@, hay@),
{
    let h = str_chars(hay);
    let n = str_chars(needle);
    contains_chars(&h, &n)
}

/// `p` is a prefix of `s`.
pub open spec fn has_prefix(s: Seq<char>, p: Seq<char>) -> bool {
    p.len() <= s.len() && s.subrange(0, p.len() as int) == p
}

/// Executable prefix test.
pub fn starts_with(s: &str, p: &str) -> (r: bool)
    ensures
        r == has_prefix(s@, p@),
{
    let sl = s.unicode_len();
    let pl = p.unicode_len();
    if pl > sl {
        return false;
    }
    let mut j: usize = 0;
    while j < pl
        invariant
            j <= pl,
            pl <= sl,
            sl == s@.len(),
            pl == p@.len(),
            forall|jj: int| 0 <= jj < j ==> s@[jj] == p@[jj],
        decreases pl - j,
    {
        if s.get_char(j) != p.get_char(j) {
            proof {
                let w = s@.subrange(0, p@.len() as int);
                assert(w[j as int] == s@[j as int]);
            }
            return false;
        }
        j = j + 1;
    }
    proof {
        assert(s@.subrange(0, p@.len() as int) =~= p@);
    }
    true
}

/// Equality of string slices, stated over their character sequences.
pub fn str_eq(a: &str, b: &str) -> (r: bool)
    ensures
        r == (a@ == b@),
{
    let al = a.unicode_len();
    let bl = b.unicode_len();
    if al != bl {
        return false;
    }
    let mut j: usize = 0;
    while j < al
        invariant
            j <= al,
            al == a@.len(),
            al == b@.len(),
            forall|jj: int| 0 <= jj < j ==> a@[jj] == b@[jj],
        decreases al - j,
    {
        if a.get_char(j) != b.get_char(j) {
            return false;
        }
        j = j + 1;
    }
    proof {
        assert(a@ =~= b@);
    }
    true
}

/// The tokens of `s`: its maximal runs of non-whitespace characters, in order.
pub open spec fn split_ws_spec(s: Seq<char>) -> Seq<Seq<char>>
    decreases s.len(),
{
    if s.len() == 0 {
        Seq::empty()
    } else {
        let prefix = s.drop_last();
        let toks = split_ws_spec(prefix);
        let c = s.last();
        if is_ws(c) {
            toks
        } else if prefix.len() == 0 || is_ws(prefix.last()) {
            toks.push(seq![c])
        } else {
            toks.update(toks.len() - 1, toks.last().push(c))
        }
    }
}

/// Splits `s` into its whitespace-separated tokens.
pub fn split_ws(s: &str) -> (r: Vec<String>)
    ensures
        r.deep_view() == split_ws_spec(s@),
{
    let n = s.unicode_len();
    let mut done: Vec<String> = Vec::new();
    let mut cur: String = String::new();
    let mut i: usize = 0;
    while i < n
        invariant
            i <= n,
            n == s@.len(),
            cur@.len() == 0 ==> split_ws_spec(s@.subrange(0, i as int)) == done.deep_view(),
            cur@.len() > 0 ==> split_ws_spec(s@.subrange(0, i as int)) == done.deep_view().push(
                cur@,
            ),
            cur@.len() > 0 ==> i > 0 && !is_ws(s@[i - 1]),
            cur@.len() == 0 ==> i == 0 || is_ws(s@[i - 1]),
        decreases n - i,
    {
        let ghost p = s@.subrange(0, i as int);
        let ghost p2 = s@.subrange(0, i as int + 1);
        proof {
            assert(p2.drop_last() =~= p);
            assert(p2.last() == s@[i as int]);
        }
        let c = s.get_char(i);
        if is_ws_char(c) {
            if cur.unicode_len() > 0 {
                let ghost old_done = done.deep_view();
                let finished = cur;
                done.push(finished);
                cur = String::new();
                proof {
                    assert(done.deep_view() =~= old_done.push(finished@));
                }
            }
        } else {
            if cur.unicode_len() == 0 {
                proof {
                    if p.len() > 0 {
                        assert(p.last() == s@[i - 1]);
                    }
                }
                push_char(&mut cur, c);
                proof {
                    assert(cur@ =~= seq![c]);
                }
            } else {
                proof {
                    assert(p.len() > 0 && !is_ws(p.last()));
                    let toks = split_ws_spec(p);
                    assert(toks == done.deep_view().push(cur@));
                    assert(toks.len() == done.deep_view().len() + 1);
                    assert(toks.last() == cur@);
                    assert(toks.update(toks.len() - 1, toks.last().push(c)) =~= done.deep_view()
                        .push(cur@.push(c)));
                }
                push_char(&mut cur, c);
            }
        }
        i = i + 1;
    }
    proof {
        assert(s@.subrange(0, n as int) =~= s@);
    }
    if cur.unicode_len() > 0 {
        let ghost old_done = done.deep_view();
        let finished = cur;
        done.push(finished);
        proof {
            assert(done.deep_view() =~= old_done.push(finished@));
        }
        done
    } else {
        done
    }
}

/// Clones a vector of strings; the clone holds the same string values.
pub fn clone_string_vec(v: &Vec<String>) -> (r: Vec<String>)
    ensures
        r@ == v@,
{
    let r = v.clone();
    proof {
        assert forall|i: int| 0 <= i < v@.len() implies r@[i] == v@[i] by {
            assert(vstd::pervasive::cloned::<String>(v@[i], r@[i]));
        }
        assert(r@ =~= v@);
    }
    r
}

/// The case-folded form of a character sequence, as `str::to_lowercase`
/// computes it.  The folding is a fixed function of the characters alone;
/// its full definition (Unicode case mapping) is not restated here.
pub uninterp spec fn lower_of(s: Seq<char>) -> Seq<char>;

/// Relies on `str::to_lowercase`: returns the lowercase equivalent of the
/// string, a function of its characters alone.
#[verifier::external_body]
pub fn lowercase(s: &str) -> (r: String)
    ensures
        r@ == lower_of(s@),
{
    s.to_lowercase()
}

/// Relies on `String::push`: appends the character to the end of the string.
#[verifier::external_body]
pub fn push_char(s: &mut String, c: char)
    ensures
        final(s)@ == old(s)@.push(c),
{
    s.push(c)
}

/// Relies on `String::pop`: removes and returns the last character, or
/// returns `None` when the string is empty.
#[verifier::external_body]
pub fn pop_char(s: &mut String) -> (r: Option<char>)
    ensures
        old(s)@.len() == 0 ==> final(s)@ == old(s)@ && r is None,
        old(s)@.len() > 0 ==> final(s)@ == old(s)@.drop_last() && r == Some(old(s)@.last()),
{
    s.pop()
}

} // verus!
