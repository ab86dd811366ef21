//! The filter engine: given the master list and a free-text query, keep
//! exactly the items of which every whitespace-separated query token is a
//! case-insensitive substring, in their original order.

use vstd::prelude::*;
use crate::strutil::{
    is_substring, lower_of, lowercase, split_ws, split_ws_spec, str_chars, contains_chars,
};

verus! {

/// `item` satisfies the query `q`: every token of `q` occurs in `item`,
/// comparing case-insensitively.  An empty query is satisfied by every item.
pub open spec fn item_matches(item: Seq<char>, q: Seq<char>) -> bool {
    forall|j: int|
        0 <= j < split_ws_spec(q).len() ==> is_substring(
            lower_of(#[trigger] split_ws_spec(q)[j]),
            lower_of(item),
        )
}

/// The filtered view of `items` under query `q`: the subsequence of items
/// that satisfy the query, in their original relative order.
pub open spec fn filter_spec(items: Seq<Seq<char>>, q: Seq<char>) -> Seq<Seq<char>> {
    items.filter(|item: Seq<char>| item_matches(item, q))
}

fn item_passes(item: &String, low_toks: &Vec<Vec<char>>) -> (r: bool)
    ensures
        r == (forall|j: int|
            0 <= j < low_toks@.len() ==> is_substring(#[trigger] low_toks@[j]@, lower_of(item@))),
{
    let low_item = lowercase(item.as_str());
    let low_chars = str_chars(low_item.as_str());
    let n = low_toks.len();
    let mut j: usize = 0;
    while j < n
        invariant
            j <= n,
            n == low_toks@.len(),
            low_chars@ == lower_of(item@),
            forall|jj: int| 0 <= jj < j ==> is_substring(#[trigger] low_toks@[jj]@, lower_of(item@)),
        decreases n - j,
    {
        if !contains_chars(&low_chars, &low_toks[j]) {
            return false;
        }
        j = j + 1;
    }
    true
}

/// Filters `items` by `query`, keeping relative order.
pub fn filter_items(items: &Vec<String>, query: &str) -> (r: Vec<String>)
    ensures
        r.deep_view() == filter_spec(items.deep_view(), query@),
{
    let toks: Vec<String> = split_ws(query);
    let mut low_toks: Vec<Vec<char>> = Vec::new();
    let tn = toks.len();
    let mut ti: usize = 0;
    while ti < tn
        invariant
            ti <= tn,
            tn == toks@.len(),
            toks.deep_view() == split_ws_spec(query@),
            low_toks@.len() == ti,
            forall|j: int| 0 <= j < ti ==> #[trigger] low_toks@[j]@ == lower_of(toks.deep_view()[j]),
        decreases tn - ti,
    {
        let lt = lowercase(toks[ti].as_str());
        low_toks.push(str_chars(lt.as_str()));
        ti = ti + 1;
    }
    let ghost q = query@;
    let ghost iv = items.deep_view();
    proof {
        assert(low_toks@.len() == split_ws_spec(q).len());
    }
    let mut out: Vec<String> = Vec::new();
    proof {
        reveal(Seq::filter);
        assert(iv.take(0) =~= Seq::<Seq<char>>::empty());
        assert(out.deep_view() =~= filter_spec(iv.take(0), q));
    }
    let n = items.len();
    let mut i: usize = 0;
    while i < n
        invariant
            i <= n,
            n == items@.len(),
            iv == items.deep_view(),
            q == query@,
            low_toks@.len() == split_ws_spec(q).len(),
            forall|j: int|
                0 <= j < low_toks@.len() ==> #[trigger] low_toks@[j]@ == lower_of(
                    split_ws_spec(q)[j],
                ),
            out.deep_view() == filter_spec(iv.take(i as int), q),
        decreases n - i,
    {
        let ghost pre = iv.take(i as int);
        let ghost post = iv.take(i as int + 1);
        proof {
            reveal(Seq::filter);
            assert(post.drop_last() =~= pre);
            assert(post.last() == items@[i as int]@);
        }
        let passes = item_passes(&items[i], &low_toks);
        proof {
            let iview = items@[i as int]@;
            if passes {
                assert forall|j: int| 0 <= j < split_ws_spec(q).len() implies is_substring(
                    lower_of(#[trigger] split_ws_spec(q)[j]),
                    lower_of(iview),
                ) by {
                    assert(low_toks@[j]@ == lower_of(split_ws_spec(q)[j]));
                    assert(is_substring(low_toks@[j]@, lower_of(iview)));
                }
                assert(item_matches(iview, q));
            } else {
                let j = choose|j: int|
                    0 <= j < low_toks@.len() && !is_substring(
                        #[trigger] low_toks@[j]@,
                        lower_of(iview),
                    );
                assert(low_toks@[j]@ == lower_of(split_ws_spec(q)[j]));
                assert(!item_matches(iview, q));
            }
            assert(passes == item_matches(iview, q));
        }
        if passes {
            let ghost old_out = out.deep_view();
            out.push(items[i].clone());
            proof {
                reveal(Seq::filter);
                assert(out.deep_view() =~= old_out.push(items@[i as int]@));
            }
        } else {
            proof {
                reveal(Seq::filter);
            }
        }
        i = i + 1;
    }
    proof {
        assert(iv.take(n as int) =~= iv);
    }
    out
}

/// `sub` can be obtained from `sup` by deleting elements, keeping order.
pub open spec fn is_subsequence<T>(sub: Seq<T>, sup: Seq<T>) -> bool
    decreases sub.len(), sup.len(),
{
    if sub.len() == 0 {
        true
    } else if sup.len() == 0 {
        false
    } else if sub.last() == sup.last() {
        is_subsequence(sub.drop_last(), sup.drop_last())
    } else {
        is_subsequence(sub, sup.drop_last())
    }
}

proof fn lemma_subsequence_drop<T>(sub: Seq<T>, sup: Seq<T>)
    requires
        is_subsequence(sub, sup),
        sub.len() > 0,
    ensures
        is_subsequence(sub.drop_last(), sup),
    decreases sup.len(),
{
    if sub.last() == sup.last() {
        let a = sub.drop_last();
        let b = sup.drop_last();
        if a.len() > 0 && a.last() == sup.last() {
            lemma_subsequence_drop(a, b);
        }
    } else {
        lemma_subsequence_drop(sub, sup.drop_last());
        let a = sub.drop_last();
        if a.len() > 0 && a.last() == sup.last() {
            lemma_subsequence_drop(a, sup.drop_last());
        }
    }
}

/// The filter engine returns a subsequence of its input: it keeps the
/// surviving items in their original relative order and invents none.
pub proof fn lemma_filter_subsequence(items: Seq<Seq<char>>, q: Seq<char>)
    ensures
        is_subsequence(filter_spec(items, q), items),
    decreases items.len(),
{
    reveal(Seq::filter);
    if items.len() > 0 {
        let rest = items.drop_last();
        lemma_filter_subsequence(rest, q);
        let fr = filter_spec(rest, q);
        if item_matches(items.last(), q) {
            assert(filter_spec(items, q) == fr.push(items.last()));
            assert(fr.push(items.last()).drop_last() =~= fr);
        } else {
            assert(filter_spec(items, q) == fr);
            if fr.len() > 0 {
                if fr.last() == items.last() {
                    lemma_subsequence_drop(fr, rest);
                }
            }
        }
    }
}

/// An empty query keeps the full list.
pub proof fn lemma_filter_empty_query(items: Seq<Seq<char>>)
    ensures
        filter_spec(items, Seq::<char>::empty()) == items,
    decreases items.len(),
{
    reveal(Seq::filter);
    if items.len() > 0 {
        lemma_filter_empty_query(items.drop_last());
        assert(item_matches(items.last(), Seq::<char>::empty()));
        assert(filter_spec(items, Seq::<char>::empty()) =~= items);
    }
}

/// Filtering is idempotent: filtering an already-filtered list with the
/// same query returns it unchanged.
pub proof fn lemma_filter_idempotent(items: Seq<Seq<char>>, q: Seq<char>)
    ensures
        filter_spec(filter_spec(items, q), q) == filter_spec(items, q),
    decreases items.len(),
{
    reveal(Seq::filter);
    if items.len() > 0 {
        let rest = items.drop_last();
        lemma_filter_idempotent(rest, q);
        let fr = filter_spec(rest, q);
        if item_matches(items.last(), q) {
            assert(filter_spec(items, q) == fr.push(items.last()));
            assert(fr.push(items.last()).drop_last() =~= fr);
        }
    }
}

} // verus!
