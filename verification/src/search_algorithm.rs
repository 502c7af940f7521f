//! The algorithms that select the entries of a search dialog matching a
//! query. Each returns the indices of the matching entries, in order.
use vstd::prelude::*;
use crate::search_types::SearchItem;
use crate::text::{
    ascii_lower, ascii_upper, chars_of, contains, is_ascii_text,
    lemma_ascii_lower_of_upper, lemma_words_join, lemma_words_of_whitespace, lemma_words_single, is_ws, lowercase,
    seq_contains, split_words, str_eq, to_lowercase, words,
};

verus! {

/// The search algorithms a descriptor may name.
#[derive(Debug, Clone, Copy, PartialEq, Eq, Structural)]
pub enum Algorithm {
    /// `"exact"`: the query occurs in the label or the trigger.
    Exact,
    /// `"iexact"`: as `Exact`, ignoring case.
    CaseInsensitiveExact,
    /// `"ikey"`: every word of the query occurs, ignoring case, in the
    /// label or the trigger.
    CaseInsensitiveKeyword,
}

/// The algorithm that a name selects, if any.
pub open spec fn algorithm_named(name: Seq<char>) -> Option<Algorithm> {
    if name == seq!['e', 'x', 'a', 'c', 't'] {
        Some(Algorithm::Exact)
    } else if name == seq!['i', 'e', 'x', 'a', 'c', 't'] {
        Some(Algorithm::CaseInsensitiveExact)
    } else if name == seq!['i', 'k', 'e', 'y'] {
        Some(Algorithm::CaseInsensitiveKeyword)
    } else {
        None
    }
}

/// The indices `i < n` with `p(i)`, ascending.
pub open spec fn indices_where(n: nat, p: spec_fn(int) -> bool) -> Seq<usize>
    decreases n,
{
    if n == 0 {
        Seq::empty()
    } else {
        let prev = indices_where((n - 1) as nat, p);
        if p(n - 1) {
            prev.push((n - 1) as usize)
        } else {
            prev
        }
    }
}

/// `p` occurs in the trigger, if there is one.
pub open spec fn trigger_has(trigger: Option<Seq<char>>, p: Seq<char>) -> bool {
    match trigger {
        Some(t) => contains(t, p),
        None => false,
    }
}

/// The trigger's characters, if there is one.
pub open spec fn trigger_view(item: SearchItem) -> Option<Seq<char>> {
    match item.trigger {
        Some(t) => Some(t@),
        None => None,
    }
}

/// The trigger's lower-case characters, if there is one.
pub open spec fn lower_trigger_view(item: SearchItem) -> Option<Seq<char>> {
    match item.trigger {
        Some(t) => Some(lowercase(t@)),
        None => None,
    }
}

/// `exact`: the query occurs in the label or in the trigger.
pub open spec fn exact_hit(query: Seq<char>, item: SearchItem) -> bool {
    contains(item.label@, query) || trigger_has(trigger_view(item), query)
}

/// `iexact`: the lower-case query occurs in the lower-case label, or the
/// query as given occurs in the lower-case trigger.
pub open spec fn iexact_hit(query: Seq<char>, item: SearchItem) -> bool {
    contains(lowercase(item.label@), lowercase(query)) || trigger_has(
        lower_trigger_view(item),
        query,
    )
}

/// Every keyword occurs in the label or in the trigger given.
pub open spec fn all_keywords_hit(
    keywords: Seq<Seq<char>>,
    label: Seq<char>,
    trigger: Option<Seq<char>>,
) -> bool {
    forall|k: int|
        0 <= k < keywords.len() ==> contains(label, #[trigger] keywords[k]) || trigger_has(
            trigger,
            keywords[k],
        )
}

/// `ikey`: every word of the lower-case query occurs in the lower-case
/// label or in the lower-case trigger.
pub open spec fn ikey_hit(query: Seq<char>, item: SearchItem) -> bool {
    all_keywords_hit(words(lowercase(query)), lowercase(item.label@), lower_trigger_view(item))
}

/// The test an algorithm applies to entry `i`.
pub open spec fn hit(alg: Algorithm, query: Seq<char>, items: Seq<SearchItem>) -> spec_fn(
    int,
) -> bool {
    match alg {
        Algorithm::Exact => |i: int| exact_hit(query, items[i]),
        Algorithm::CaseInsensitiveExact => |i: int| iexact_hit(query, items[i]),
        Algorithm::CaseInsensitiveKeyword => |i: int| ikey_hit(query, items[i]),
    }
}

/// What an algorithm returns: the indices of the matching entries, ascending.
pub open spec fn search_results(alg: Algorithm, query: Seq<char>, items: Seq<SearchItem>) -> Seq<
    usize,
> {
    indices_where(items.len(), hit(alg, query, items))
}

/// `ikey` on an ASCII query: its keywords are the words of the query's
/// ASCII lower case (which is its lower case).
pub open spec fn ikey_hit_ascii(query: Seq<char>, item: SearchItem) -> bool {
    all_keywords_hit(words(ascii_lower(query)), lowercase(item.label@), lower_trigger_view(item))
}

/// The `ikey` test on an ASCII query, entry by entry.
pub open spec fn ascii_keyword_hit(query: Seq<char>, items: Seq<SearchItem>) -> spec_fn(
    int,
) -> bool {
    |i: int| ikey_hit_ascii(query, items[i])
}

/// What `ikey` returns for an ASCII query.
pub open spec fn ascii_keyword_results(query: Seq<char>, items: Seq<SearchItem>) -> Seq<usize> {
    indices_where(items.len(), ascii_keyword_hit(query, items))
}

/// Entries that hold the keywords of two queries, entry by entry.
pub open spec fn both_keyword_hit(q1: Seq<char>, q2: Seq<char>, items: Seq<SearchItem>) -> spec_fn(
    int,
) -> bool {
    |i: int| ikey_hit(q1, items[i]) && ikey_hit(q2, items[i])
}

/// The entries that hold the keywords of both queries, ascending.
pub open spec fn joined_keyword_results(
    q1: Seq<char>,
    q2: Seq<char>,
    items: Seq<SearchItem>,
) -> Seq<usize> {
    indices_where(items.len(), both_keyword_hit(q1, q2, items))
}

/// Whether `name` selects a search algorithm.
pub fn is_known_algorithm(name: &str) -> (r: bool)
    ensures
        r == (algorithm_named(name@) is Some),
{
    proof {
        reveal_strlit("exact");
        reveal_strlit("iexact");
        reveal_strlit("ikey");
    }
    assert("exact"@ =~= seq!['e', 'x', 'a', 'c', 't']);
    assert("iexact"@ =~= seq!['i', 'e', 'x', 'a', 'c', 't']);
    assert("ikey"@ =~= seq!['i', 'k', 'e', 'y']);
    str_eq(name, "exact") || str_eq(name, "iexact") || str_eq(name, "ikey")
}

/// The algorithm that `name` selects: `"exact"`, `"iexact"` or `"ikey"`.
pub fn get_algorithm(name: &str) -> (r: Algorithm)
    requires
        algorithm_named(name@) is Some,
    ensures
        algorithm_named(name@) == Some(r),
{
    proof {
        reveal_strlit("exact");
        reveal_strlit("iexact");
    }
    assert("exact"@ =~= seq!['e', 'x', 'a', 'c', 't']);
    assert("iexact"@ =~= seq!['i', 'e', 'x', 'a', 'c', 't']);
    if str_eq(name, "exact") {
        Algorithm::Exact
    } else if str_eq(name, "iexact") {
        Algorithm::CaseInsensitiveExact
    } else {
        Algorithm::CaseInsensitiveKeyword
    }
}

/// Runs an algorithm on a query.
pub fn run_algorithm(alg: Algorithm, query: &str, items: &[SearchItem]) -> (r: Vec<usize>)
    ensures
        r@ == search_results(alg, query@, items@),
        alg == Algorithm::CaseInsensitiveKeyword && is_ascii_text(query@) ==> r@
            == ascii_keyword_results(query@, items@),
        alg == Algorithm::CaseInsensitiveKeyword ==> forall|a: Seq<char>, b: Seq<char>|
            #![trigger joined_keyword_results(a, b, items@)]
            query@ == a + seq![' '] + b ==> r@ == joined_keyword_results(a, b, items@),
        alg == Algorithm::CaseInsensitiveKeyword && (forall|i: int|
            0 <= i < query@.len() ==> is_ws(#[trigger] query@[i])) ==> r@ == Seq::new(
            items@.len(),
            |i: int| i as usize,
        ),
{
    match alg {
        Algorithm::Exact => exact_match(query, items),
        Algorithm::CaseInsensitiveExact => case_insensitive_exact_match(query, items),
        Algorithm::CaseInsensitiveKeyword => case_insensitive_keyword(query, items),
    }
}

/// `indices_where` grows by `i` exactly when `p(i)`.
proof fn lemma_indices_step(n: nat, p: spec_fn(int) -> bool)
    ensures
        indices_where(n + 1, p) == if p(n as int) {
            indices_where(n, p).push(n as usize)
        } else {
            indices_where(n, p)
        },
{
    assert((n + 1 - 1) as nat == n);
}

/// The entries of `items` in which `query` occurs, as label or trigger.
pub fn exact_match(query: &str, items: &[SearchItem]) -> (r: Vec<usize>)
    ensures
        r@ == search_results(Algorithm::Exact, query@, items@),
{
    let q = chars_of(query);
    let ghost p = hit(Algorithm::Exact, query@, items@);
    let mut r: Vec<usize> = Vec::new();
    let mut i: usize = 0;
    while i < items.len()
        invariant
            q@ == query@,
            i <= items@.len(),
            p == hit(Algorithm::Exact, query@, items@),
            r@ == indices_where(i as nat, p),
        decreases items.len() - i,
    {
        let item = &items[i];
        let label = chars_of(item.label.as_str());
        let mut found = seq_contains(&label, &q);
        if !found {
            match &item.trigger {
                Some(t) => {
                    let tc = chars_of(t.as_str());
                    found = seq_contains(&tc, &q);
                },
                None => {},
            }
        }
        proof {
            lemma_indices_step(i as nat, p);
        }
        if found {
            r.push(i);
        }
        i = i + 1;
    }
    r
}

/// The lower-case characters of an optional trigger.
fn lower_trigger(trigger: &Option<String>) -> (r: Option<Vec<char>>)
    ensures
        match r {
            Some(v) => trigger matches Some(t) && v@ == lowercase(t@),
            None => trigger is None,
        },
{
    match trigger {
        Some(t) => {
            let lt = to_lowercase(t.as_str());
            Some(chars_of(lt.as_str()))
        },
        None => None,
    }
}

/// The optional characters as an optional sequence.
pub open spec fn opt_chars(o: Option<Vec<char>>) -> Option<Seq<char>> {
    match o {
        Some(v) => Some(v@),
        None => None,
    }
}

/// The `iexact` test on lowered text: `lower_query` occurs in `lower_label`,
/// or `query` occurs in `lower_trigger`.
pub fn iexact_hit_lowered(
    lower_query: &Vec<char>,
    query: &Vec<char>,
    lower_label: &Vec<char>,
    lower_trigger: &Option<Vec<char>>,
) -> (r: bool)
    ensures
        r == (contains(lower_label@, lower_query@) || trigger_has(opt_chars(*lower_trigger), query@)),
{
    if seq_contains(lower_label, lower_query) {
        return true;
    }
    match lower_trigger {
        Some(t) => seq_contains(t, query),
        None => false,
    }
}

/// The `ikey` test on lowered text: every keyword occurs in `lower_label`
/// or in `lower_trigger`.
pub fn keywords_hit_lowered(
    keywords: &Vec<Vec<char>>,
    lower_label: &Vec<char>,
    lower_trigger: &Option<Vec<char>>,
) -> (r: bool)
    ensures
        r == all_keywords_hit(
            keywords@.map_values(|w: Vec<char>| w@),
            lower_label@,
            opt_chars(*lower_trigger),
        ),
{
    let ghost kws = keywords@.map_values(|w: Vec<char>| w@);
    let mut k: usize = 0;
    while k < keywords.len()
        invariant
            k <= keywords@.len(),
            kws == keywords@.map_values(|w: Vec<char>| w@),
            forall|j: int|
                0 <= j < k ==> contains(lower_label@, #[trigger] kws[j]) || trigger_has(
                    opt_chars(*lower_trigger),
                    kws[j],
                ),
        decreases keywords.len() - k,
    {
        let kw = &keywords[k];
        let mut ok = seq_contains(lower_label, kw);
        if !ok {
            match lower_trigger {
                Some(t) => {
                    ok = seq_contains(t, kw);
                },
                None => {},
            }
        }
        if !ok {
            assert(!(contains(lower_label@, kws[k as int]) || trigger_has(
                opt_chars(*lower_trigger),
                kws[k as int],
            )));
            return false;
        }
        k = k + 1;
    }
    true
}

/// The entries in which the query occurs, ignoring case (the trigger is
/// searched for the query as given).
pub fn case_insensitive_exact_match(query: &str, items: &[SearchItem]) -> (r: Vec<usize>)
    ensures
        r@ == search_results(Algorithm::CaseInsensitiveExact, query@, items@),
        query@.len() == 0 ==> r@ == Seq::new(items@.len(), |i: int| i as usize),
{
    let lowercase_query = to_lowercase(query);
    let lq = chars_of(lowercase_query.as_str());
    let q = chars_of(query);
    let ghost p = hit(Algorithm::CaseInsensitiveExact, query@, items@);
    let mut r: Vec<usize> = Vec::new();
    let mut i: usize = 0;
    while i < items.len()
        invariant
            q@ == query@,
            lq@ == lowercase(query@),
            i <= items@.len(),
            p == hit(Algorithm::CaseInsensitiveExact, query@, items@),
            r@ == indices_where(i as nat, p),
        decreases items.len() - i,
    {
        let item = &items[i];
        let ll = to_lowercase(item.label.as_str());
        let label = chars_of(ll.as_str());
        let lt = lower_trigger(&item.trigger);
        let found = iexact_hit_lowered(&lq, &q, &label, &lt);
        proof {
            assert(opt_chars(lt) == lower_trigger_view(items@[i as int]));
            lemma_indices_step(i as nat, p);
        }
        if found {
            r.push(i);
        }
        i = i + 1;
    }
    proof {
        if query@.len() == 0 {
            assert(forall|m: int| 0 <= m < query@.len() ==> is_ws(#[trigger] query@[m]));
            assert(lowercase(query@) == query@);
            assert forall|m: int| 0 <= m < items@.len() implies #[trigger] p(m) by {
                lemma_contains_empty(lowercase(items@[m].label@));
                assert(lowercase(query@) =~= Seq::<char>::empty());
            }
            lemma_indices_all(items@.len(), p);
        }
    }
    r
}

/// The entries that hold every word of the query, ignoring case, in their
/// label or trigger.
pub fn case_insensitive_keyword(query: &str, items: &[SearchItem]) -> (r: Vec<usize>)
    ensures
        r@ == search_results(Algorithm::CaseInsensitiveKeyword, query@, items@),
        is_ascii_text(query@) ==> r@ == ascii_keyword_results(query@, items@),
        forall|a: Seq<char>, b: Seq<char>|
            #![trigger joined_keyword_results(a, b, items@)]
            query@ == a + seq![' '] + b ==> r@ == joined_keyword_results(a, b, items@),
        (forall|i: int| 0 <= i < query@.len() ==> is_ws(#[trigger] query@[i])) ==> r@ == Seq::new(
            items@.len(),
            |i: int| i as usize,
        ),
{
    let lowercase_query = to_lowercase(query);
    let lq = chars_of(lowercase_query.as_str());
    let keywords = split_words(&lq);
    let ghost p = hit(Algorithm::CaseInsensitiveKeyword, query@, items@);
    let mut r: Vec<usize> = Vec::new();
    let mut i: usize = 0;
    while i < items.len()
        invariant
            keywords@.map_values(|w: Vec<char>| w@) == words(lowercase(query@)),
            i <= items@.len(),
            p == hit(Algorithm::CaseInsensitiveKeyword, query@, items@),
            r@ == indices_where(i as nat, p),
        decreases items.len() - i,
    {
        let item = &items[i];
        let ll = to_lowercase(item.label.as_str());
        let label = chars_of(ll.as_str());
        let lt = lower_trigger(&item.trigger);
        let found = keywords_hit_lowered(&keywords, &label, &lt);
        proof {
            assert(opt_chars(lt) == lower_trigger_view(items@[i as int]));
            lemma_indices_step(i as nat, p);
        }
        if found {
            r.push(i);
        }
        i = i + 1;
    }
    proof {
        if is_ascii_text(query@) {
            assert(hit(Algorithm::CaseInsensitiveKeyword, query@, items@) =~= ascii_keyword_hit(
                query@,
                items@,
            ));
        }
        assert forall|a: Seq<char>, b: Seq<char>| query@ == a + seq![' '] + b implies r@
            == #[trigger] joined_keyword_results(a, b, items@) by {
            let la = lowercase(a);
            let lb = lowercase(b);
            assert(lowercase(query@) == la + seq![' '] + lb);
            lemma_words_join(la, ' ', lb);
            assert forall|x: SearchItem| #[trigger] ikey_hit(query@, x) == (ikey_hit(a, x)
                && ikey_hit(b, x)) by {
                lemma_all_keywords_append(
                    words(la),
                    words(lb),
                    lowercase(x.label@),
                    lower_trigger_view(x),
                );
            }
            assert(hit(Algorithm::CaseInsensitiveKeyword, query@, items@) =~= both_keyword_hit(
                a,
                b,
                items@,
            ));
        }
        if forall|i: int| 0 <= i < query@.len() ==> is_ws(#[trigger] query@[i]) {
            assert(lowercase(query@) == query@);
            lemma_words_of_whitespace(query@);
            lemma_indices_all(items@.len(), p);
        }
    }
    r
}

/// `indices_where(n, p)` lists, ascending and without repetition, exactly
/// the `i < n` with `p(i)`.
proof fn lemma_indices_where(n: nat, p: spec_fn(int) -> bool)
    requires
        n <= usize::MAX,
    ensures
        forall|a: int, b: int|
            0 <= a < b < indices_where(n, p).len() ==> #[trigger] indices_where(n, p)[a]
                < #[trigger] indices_where(n, p)[b],
        forall|a: int|
            0 <= a < indices_where(n, p).len() ==> #[trigger] indices_where(n, p)[a] < n && p(
                indices_where(n, p)[a] as int,
            ),
        forall|i: int| 0 <= i < n && p(i) ==> #[trigger] indices_where(n, p).contains(i as usize),
    decreases n,
{
    if n > 0 {
        let m = (n - 1) as nat;
        lemma_indices_where(m, p);
        lemma_indices_step(m, p);
        let prev = indices_where(m, p);
        if p(m as int) {
            assert forall|i: int| 0 <= i < n && p(i) implies #[trigger] indices_where(
                n,
                p,
            ).contains(i as usize) by {
                if i < m {
                    assert(prev.contains(i as usize));
                    let k = choose|k: int| 0 <= k < prev.len() && prev[k] == i as usize;
                    assert(indices_where(n, p)[k] == i as usize);
                } else {
                    assert(indices_where(n, p)[prev.len() as int] == i as usize);
                }
            }
        } else {
            assert forall|i: int| 0 <= i < n && p(i) implies #[trigger] indices_where(
                n,
                p,
            ).contains(i as usize) by {
                assert(prev.contains(i as usize));
            }
        }
    }
}

/// What every search returns: the indices of exactly the entries that the
/// algorithm's test accepts, each once, ascending, all within the entries.
pub proof fn lemma_search_results(alg: Algorithm, query: Seq<char>, items: Seq<SearchItem>)
    requires
        items.len() <= usize::MAX,
    ensures
        forall|a: int, b: int|
            0 <= a < b < search_results(alg, query, items).len() ==> #[trigger] search_results(
                alg,
                query,
                items,
            )[a] < #[trigger] search_results(alg, query, items)[b],
        forall|a: int|
            0 <= a < search_results(alg, query, items).len() ==> #[trigger] search_results(
                alg,
                query,
                items,
            )[a] < items.len() && hit(alg, query, items)(
                search_results(alg, query, items)[a] as int,
            ),
        forall|i: int|
            0 <= i < items.len() && hit(alg, query, items)(i) ==> #[trigger] search_results(
                alg,
                query,
                items,
            ).contains(i as usize),
{
    lemma_indices_where(items.len(), hit(alg, query, items));
}

/// When the test accepts every index below `n`, all of them come back.
proof fn lemma_indices_all(n: nat, p: spec_fn(int) -> bool)
    requires
        forall|i: int| 0 <= i < n ==> #[trigger] p(i),
    ensures
        indices_where(n, p) == Seq::new(n, |i: int| i as usize),
    decreases n,
{
    if n > 0 {
        let m = (n - 1) as nat;
        lemma_indices_all(m, p);
        lemma_indices_step(m, p);
        assert(Seq::new(m, |i: int| i as usize).push(m as usize) =~= Seq::new(
            n,
            |i: int| i as usize,
        ));
    } else {
        assert(indices_where(n, p) =~= Seq::new(n, |i: int| i as usize));
    }
}

/// The empty query occurs in every label: `exact` returns every entry.
pub proof fn lemma_exact_empty_query(items: Seq<SearchItem>)
    ensures
        search_results(Algorithm::Exact, Seq::empty(), items) == Seq::new(
            items.len(),
            |i: int| i as usize,
        ),
{
    let p = hit(Algorithm::Exact, Seq::empty(), items);
    assert forall|i: int| 0 <= i < items.len() implies #[trigger] p(i) by {
        let e = Seq::<char>::empty();
        assert(items[i].label@.subrange(0, (0 + e.len()) as int) =~= e);
        assert(contains(items[i].label@, e));
    }
    lemma_indices_all(items.len(), p);
}

/// A query without words (once lower-cased) sets no condition: `ikey`
/// returns every entry.
pub proof fn lemma_keyword_query_without_words(query: Seq<char>, items: Seq<SearchItem>)
    requires
        words(lowercase(query)).len() == 0,
    ensures
        search_results(Algorithm::CaseInsensitiveKeyword, query, items) == Seq::new(
            items.len(),
            |i: int| i as usize,
        ),
{
    lemma_indices_all(items.len(), hit(Algorithm::CaseInsensitiveKeyword, query, items));
}

/// `indices_where(n, p)` holds `i` exactly when `p(i)`.
proof fn lemma_indices_contains(n: nat, p: spec_fn(int) -> bool, i: int)
    requires
        n <= usize::MAX,
        0 <= i < n,
    ensures
        indices_where(n, p).contains(i as usize) <==> p(i),
{
    lemma_indices_where(n, p);
    if indices_where(n, p).contains(i as usize) {
        let k = choose|k: int| 0 <= k < indices_where(n, p).len() && indices_where(n, p)[k] == i as usize;
        assert(p(indices_where(n, p)[k] as int));
    }
}

/// Keyword lists are checked word by word: all of `w1 + w2` hit exactly
/// when all of `w1` and all of `w2` do.
proof fn lemma_all_keywords_append(
    w1: Seq<Seq<char>>,
    w2: Seq<Seq<char>>,
    l: Seq<char>,
    t: Option<Seq<char>>,
)
    ensures
        all_keywords_hit(w1 + w2, l, t) == (all_keywords_hit(w1, l, t) && all_keywords_hit(
            w2,
            l,
            t,
        )),
{
    if all_keywords_hit(w1, l, t) && all_keywords_hit(w2, l, t) {
        assert forall|k: int| 0 <= k < (w1 + w2).len() implies contains(
            l,
            #[trigger] (w1 + w2)[k],
        ) || trigger_has(t, (w1 + w2)[k]) by {
            if k < w1.len() {
                assert((w1 + w2)[k] == w1[k]);
            } else {
                assert((w1 + w2)[k] == w2[k - w1.len()]);
            }
        }
    }
    if all_keywords_hit(w1 + w2, l, t) {
        assert forall|k: int| 0 <= k < w1.len() implies contains(l, #[trigger] w1[k])
            || trigger_has(t, w1[k]) by {
            assert((w1 + w2)[k] == w1[k]);
        }
        assert forall|k: int| 0 <= k < w2.len() implies contains(l, #[trigger] w2[k])
            || trigger_has(t, w2[k]) by {
            assert((w1 + w2)[w1.len() + k] == w2[k]);
        }
    }
}

/// The keywords of a query are combined by "and". `case_insensitive_keyword`
/// returns `joined_keyword_results(a, b, items)` for a query `a + " " + b`;
/// those are exactly the entries that both `a` and `b` select, so more
/// words never add results, and the order of the parts does not matter.
pub proof fn lemma_keywords_conjunction(q1: Seq<char>, q2: Seq<char>, items: Seq<SearchItem>)
    requires
        items.len() <= usize::MAX,
    ensures
        forall|i: int|
            0 <= i < items.len() ==> (#[trigger] joined_keyword_results(q1, q2, items).contains(
                i as usize,
            ) <==> search_results(Algorithm::CaseInsensitiveKeyword, q1, items).contains(
                i as usize,
            ) && search_results(Algorithm::CaseInsensitiveKeyword, q2, items).contains(
                i as usize,
            )),
        joined_keyword_results(q1, q2, items) == joined_keyword_results(q2, q1, items),
{
    assert(both_keyword_hit(q1, q2, items) =~= both_keyword_hit(q2, q1, items));
    assert forall|i: int| 0 <= i < items.len() implies (#[trigger] joined_keyword_results(
        q1,
        q2,
        items,
    ).contains(i as usize) <==> search_results(Algorithm::CaseInsensitiveKeyword, q1, items).contains(
        i as usize,
    ) && search_results(Algorithm::CaseInsensitiveKeyword, q2, items).contains(i as usize)) by {
        lemma_indices_contains(items.len(), both_keyword_hit(q1, q2, items), i);
        lemma_indices_contains(items.len(), hit(Algorithm::CaseInsensitiveKeyword, q1, items), i);
        lemma_indices_contains(items.len(), hit(Algorithm::CaseInsensitiveKeyword, q2, items), i);
    }
}

/// The case of an ASCII query never matters to `ikey`: the query, its
/// upper case and its lower case select the same entries.
pub proof fn lemma_keyword_query_case(query: Seq<char>, items: Seq<SearchItem>)
    requires
        is_ascii_text(query),
    ensures
        is_ascii_text(ascii_upper(query)),
        is_ascii_text(ascii_lower(query)),
        ascii_keyword_results(ascii_upper(query), items) == ascii_keyword_results(query, items),
        ascii_keyword_results(ascii_lower(query), items) == ascii_keyword_results(query, items),
{
    lemma_ascii_lower_of_upper(query);
    assert(ascii_keyword_hit(ascii_upper(query), items) =~= ascii_keyword_hit(query, items));
    assert(ascii_keyword_hit(ascii_lower(query), items) =~= ascii_keyword_hit(query, items));
}

/// The empty text occurs in every text.
proof fn lemma_contains_empty(s: Seq<char>)
    ensures
        contains(s, Seq::empty()),
{
    let e = Seq::<char>::empty();
    assert(s.subrange(0, (0 + e.len()) as int) =~= e);
}

/// What `exact` selects: entry `i` is returned exactly when the query, as
/// given, occurs in its label or in its trigger.
pub proof fn lemma_exact_selects(query: Seq<char>, items: Seq<SearchItem>)
    requires
        items.len() <= usize::MAX,
    ensures
        forall|i: int|
            0 <= i < items.len() ==> (#[trigger] search_results(
                Algorithm::Exact,
                query,
                items,
            ).contains(i as usize) <==> (contains(items[i].label@, query) || (
            items[i].trigger matches Some(t) && contains(t@, query)))),
{
    assert forall|i: int| 0 <= i < items.len() implies (#[trigger] search_results(
        Algorithm::Exact,
        query,
        items,
    ).contains(i as usize) <==> (contains(items[i].label@, query) || (
    items[i].trigger matches Some(t) && contains(t@, query)))) by {
        lemma_indices_contains(items.len(), hit(Algorithm::Exact, query, items), i);
    }
}

/// What `iexact` selects: entry `i` is returned exactly when the lower-cased
/// query occurs in the lower-cased label, or the query as given occurs in
/// the lower-cased trigger; no other condition is put on the query.
pub proof fn lemma_iexact_selects(query: Seq<char>, items: Seq<SearchItem>)
    requires
        items.len() <= usize::MAX,
    ensures
        forall|i: int|
            0 <= i < items.len() ==> (#[trigger] search_results(
                Algorithm::CaseInsensitiveExact,
                query,
                items,
            ).contains(i as usize) <==> (contains(lowercase(items[i].label@), lowercase(query))
                || (items[i].trigger matches Some(t) && contains(lowercase(t@), query)))),
{
    assert forall|i: int| 0 <= i < items.len() implies (#[trigger] search_results(
        Algorithm::CaseInsensitiveExact,
        query,
        items,
    ).contains(i as usize) <==> (contains(lowercase(items[i].label@), lowercase(query)) || (
    items[i].trigger matches Some(t) && contains(lowercase(t@), query)))) by {
        lemma_indices_contains(items.len(), hit(Algorithm::CaseInsensitiveExact, query, items), i);
    }
}

/// What `ikey` selects: entry `i` is returned exactly when every word of
/// the lower-cased query, as it stands, occurs in the lower-cased label or
/// in the lower-cased trigger.
pub proof fn lemma_keyword_selects(query: Seq<char>, items: Seq<SearchItem>)
    requires
        items.len() <= usize::MAX,
    ensures
        forall|i: int|
            0 <= i < items.len() ==> (#[trigger] search_results(
                Algorithm::CaseInsensitiveKeyword,
                query,
                items,
            ).contains(i as usize) <==> forall|k: int|
                0 <= k < words(lowercase(query)).len() ==> contains(
                    lowercase(items[i].label@),
                    #[trigger] words(lowercase(query))[k],
                ) || (items[i].trigger matches Some(t) && contains(
                    lowercase(t@),
                    words(lowercase(query))[k],
                ))),
{
    assert forall|i: int| 0 <= i < items.len() implies (#[trigger] search_results(
        Algorithm::CaseInsensitiveKeyword,
        query,
        items,
    ).contains(i as usize) <==> forall|k: int|
        0 <= k < words(lowercase(query)).len() ==> contains(
            lowercase(items[i].label@),
            #[trigger] words(lowercase(query))[k],
        ) || (items[i].trigger matches Some(t) && contains(
            lowercase(t@),
            words(lowercase(query))[k],
        ))) by {
        lemma_indices_contains(
            items.len(),
            hit(Algorithm::CaseInsensitiveKeyword, query, items),
            i,
        );
    }
}

/// `ikey` on a one-word ASCII query `w` (what `case_insensitive_keyword`
/// returns for it): entry `i` is returned exactly when the lower case of
/// `w`, every character of it, occurs in the lower-cased label or in the
/// lower-cased trigger.
pub proof fn lemma_keyword_one_word(w: Seq<char>, items: Seq<SearchItem>)
    requires
        items.len() <= usize::MAX,
        w.len() > 0,
        is_ascii_text(w),
        forall|j: int| 0 <= j < w.len() ==> !is_ws(#[trigger] w[j]),
    ensures
        forall|i: int|
            0 <= i < items.len() ==> (#[trigger] ascii_keyword_results(w, items).contains(
                i as usize,
            ) <==> (contains(lowercase(items[i].label@), ascii_lower(w)) || (
            items[i].trigger matches Some(t) && contains(lowercase(t@), ascii_lower(w))))),
{
    let lw = ascii_lower(w);
    assert forall|j: int| 0 <= j < lw.len() implies !is_ws(#[trigger] lw[j]) by {
        assert(!is_ws(w[j]));
        assert((w[j] as u32) < 128);
    }
    lemma_words_single(lw);
    assert forall|i: int| 0 <= i < items.len() implies (#[trigger] ascii_keyword_results(
        w,
        items,
    ).contains(i as usize) <==> (contains(lowercase(items[i].label@), lw) || (
    items[i].trigger matches Some(t) && contains(lowercase(t@), lw)))) by {
        lemma_indices_contains(items.len(), ascii_keyword_hit(w, items), i);
        assert(words(lw)[0] == lw);
    }
}

} // verus!
