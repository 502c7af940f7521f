//! Character-level text primitives shared by the layout parser and the
//! search algorithms: Unicode whitespace, trimming, substring search,
//! whitespace splitting and lower-casing.
use vstd::prelude::*;
use vstd::string::*;

verus! {

/// Unicode `White_Space` characters, the set that `char::is_whitespace`
/// (and therefore `str::trim` and `str::split_whitespace`) recognises.
pub open spec fn is_ws(c: char) -> bool {
    let u = c as u32;
    ||| 0x9 <= u <= 0xd
    ||| u == 0x20
    ||| u == 0x85
    ||| u == 0xa0
    ||| u == 0x1680
    ||| 0x2000 <= u <= 0x200a
    ||| u == 0x2028
    ||| u == 0x2029
    ||| u == 0x202f
    ||| u == 0x205f
    ||| u == 0x3000
}

/// Executable membership test for the Unicode whitespace set.
pub fn is_whitespace(c: char) -> (r: bool)
    ensures
        r == is_ws(c),
{
    let u = c as u32;
    (0x9 <= u && u <= 0xd) || u == 0x20 || u == 0x85 || u == 0xa0 || u == 0x1680 || (0x2000
        <= u && u <= 0x200a) || u == 0x2028 || u == 0x2029 || u == 0x202f || u == 0x205f || u
        == 0x3000
}

/// The characters of a string slice, one by one.
pub fn chars_of(s: &str) -> (v: Vec<char>)
    ensures
        v@ == s@,
{
    broadcast use vstd::string::group_string_axioms;

    let mut v: Vec<char> = Vec::new();
    for c in it: s.chars()
        invariant
            it.seq() == s@,
            v@ == it.seq().take(it.index() as int),
    {
        v.push(c);
    }
    v
}

/// `a..b` are the bounds of `s` with its leading and trailing whitespace
/// removed; when `s` is all whitespace both bounds sit at the end.
pub open spec fn trim_bounds(s: Seq<char>, a: int, b: int) -> bool {
    &&& 0 <= a <= b <= s.len()
    &&& forall|k: int| 0 <= k < a ==> is_ws(#[trigger] s[k])
    &&& a < s.len() ==> !is_ws(s[a])
    &&& forall|k: int| b <= k < s.len() ==> is_ws(#[trigger] s[k])
    &&& b > a ==> !is_ws(s[b - 1])
}

/// `s` without leading and trailing whitespace (what `str::trim` returns).
pub open spec fn trim(s: Seq<char>) -> Seq<char> {
    let ab = choose|ab: (int, int)| trim_bounds(s, ab.0, ab.1);
    s.subrange(ab.0, ab.1)
}

/// The trimming bounds of a string are unique.
pub proof fn lemma_trim_bounds_unique(s: Seq<char>, a: int, b: int, a2: int, b2: int)
    requires
        trim_bounds(s, a, b),
        trim_bounds(s, a2, b2),
    ensures
        a == a2,
        b == b2,
{
    if a < a2 {
        assert(is_ws(s[a]));
    }
    if a2 < a {
        assert(is_ws(s[a2]));
    }
    if b < b2 {
        assert(is_ws(s[b2 - 1]));
    }
    if b2 < b {
        assert(is_ws(s[b - 1]));
    }
}

/// Whenever some bounds are trimming bounds, `trim` is the text between them.
pub proof fn lemma_trim_from_bounds(s: Seq<char>, a: int, b: int)
    requires
        trim_bounds(s, a, b),
    ensures
        trim(s) == s.subrange(a, b),
{
    let w = (a, b);
    assert(trim_bounds(s, w.0, w.1));
    let ab = choose|ab: (int, int)| trim_bounds(s, ab.0, ab.1);
    lemma_trim_bounds_unique(s, a, b, ab.0, ab.1);
}

/// Trims `cs[a..b]`: returns the absolute bounds `(x, y)` of the trimmed text.
pub fn trim_range(cs: &Vec<char>, a: usize, b: usize) -> (r: (usize, usize))
    requires
        a <= b <= cs.len(),
    ensures
        a <= r.0 <= r.1 <= b,
        trim(cs@.subrange(a as int, b as int)) == cs@.subrange(r.0 as int, r.1 as int),
{
    let ghost s = cs@.subrange(a as int, b as int);
    let mut x = a;
    while x < b && is_whitespace(cs[x])
        invariant
            a <= x <= b <= cs.len(),
            s == cs@.subrange(a as int, b as int),
            forall|k: int| 0 <= k < x - a ==> is_ws(#[trigger] s[k]),
        decreases b - x,
    {
        x = x + 1;
    }
    let mut y = b;
    while y > x && is_whitespace(cs[y - 1])
        invariant
            a <= x <= y <= b <= cs.len(),
            s == cs@.subrange(a as int, b as int),
            forall|k: int| y - a <= k < b - a ==> is_ws(#[trigger] s[k]),
        decreases y,
    {
        y = y - 1;
    }
    proof {
        assert(trim_bounds(s, x - a, y - a));
        lemma_trim_from_bounds(s, x - a, y - a);
        assert(s.subrange(x - a, y - a) =~= cs@.subrange(x as int, y as int));
    }
    (x, y)
}

/// Whether two string slices hold the same characters.
pub fn str_eq(a: &str, b: &str) -> (r: bool)
    ensures
        r == (a@ == b@),
{
    let ca = chars_of(a);
    let cb = chars_of(b);
    if ca.len() != cb.len() {
        return false;
    }
    let mut i: usize = 0;
    while i < ca.len()
        invariant
            ca@ == a@,
            cb@ == b@,
            ca.len() == cb.len(),
            i <= ca.len(),
            forall|k: int| 0 <= k < i ==> ca@[k] == cb@[k],
        decreases ca.len() - i,
    {
        if ca[i] != cb[i] {
            return false;
        }
        i = i + 1;
    }
    assert(ca@ =~= cb@);
    true
}

/// `p` occurs in `s` (what `str::contains` with a string pattern tests);
/// the empty pattern occurs everywhere.
pub open spec fn contains(s: Seq<char>, p: Seq<char>) -> bool {
    exists|k: int| 0 <= k && k + p.len() <= s.len() && #[trigger] s.subrange(k, k + p.len()) == p
}

/// Substring search.
pub fn seq_contains(s: &Vec<char>, p: &Vec<char>) -> (r: bool)
    ensures
        r == contains(s@, p@),
{
    if p.len() > s.len() {
        proof {
            assert forall|k: int| 0 <= k && k + p@.len() <= s@.len() implies #[trigger] s@.subrange(
                k,
                k + p@.len(),
            ) != p@ by {}
        }
        return false;
    }
    let last = s.len() - p.len();
    let mut k: usize = 0;
    while k <= last
        invariant
            last == s.len() - p.len(),
            p.len() <= s.len(),
            k <= last + 1,
            forall|j: int| 0 <= j < k ==> #[trigger] s@.subrange(j, j + p@.len()) != p@,
        decreases last + 1 - k,
    {
        let mut m: usize = 0;
        while m < p.len() && s[k + m] == p[m]
            invariant
                k <= last,
                last == s.len() - p.len(),
                m <= p.len(),
                forall|q: int| 0 <= q < m ==> s@[k + q] == p@[q],
            decreases p.len() - m,
        {
            m = m + 1;
        }
        if m == p.len() {
            assert(s@.subrange(k as int, k + p@.len()) =~= p@);
            return true;
        }
        assert(s@.subrange(k as int, k + p@.len())[m as int] != p@[m as int]);
        k = k + 1;
    }
    proof {
        assert forall|j: int| 0 <= j && j + p@.len() <= s@.len() implies #[trigger] s@.subrange(
            j,
            j + p@.len(),
        ) != p@ by {
            assert(j < k);
        }
    }
    false
}

/// The whitespace-separated words of `s`, in order (what
/// `str::split_whitespace` yields).
pub open spec fn words(s: Seq<char>) -> Seq<Seq<char>>
    decreases s.len(),
{
    if s.len() == 0 {
        Seq::empty()
    } else {
        let w = words(s.drop_last());
        let c = s.last();
        if is_ws(c) {
            w
        } else if s.len() >= 2 && !is_ws(s[s.len() - 2]) {
            w.update(w.len() - 1, w.last().push(c))
        } else {
            w.push(seq![c])
        }
    }
}

/// A text whose last character is not whitespace has at least one word,
/// and its last word is the final run of non-whitespace characters.
proof fn lemma_words_last(s: Seq<char>, start: int)
    requires
        0 <= start < s.len(),
        start == 0 || is_ws(s[start - 1]),
        forall|k: int| start <= k < s.len() ==> !is_ws(#[trigger] s[k]),
    ensures
        words(s).len() >= 1,
        words(s).last() == s.subrange(start, s.len() as int),
        words(s).drop_last() == words(s.subrange(0, start)),
    decreases s.len(),
{
    let w = words(s.drop_last());
    assert(s.drop_last() =~= s.subrange(0, s.len() - 1));
    if start == s.len() - 1 {
        assert(s.subrange(start, s.len() as int) =~= seq![s.last()]);
        assert(s.drop_last() =~= s.subrange(0, start));
        assert(w.push(seq![s.last()]).drop_last() =~= w);
    } else {
        lemma_words_last(s.drop_last(), start);
        assert(s.drop_last().subrange(0, start) =~= s.subrange(0, start));
        assert(s.drop_last().subrange(start, s.len() - 1).push(s.last()) =~= s.subrange(
            start,
            s.len() as int,
        ));
        assert(w.update(w.len() - 1, w.last().push(s.last())).drop_last() =~= w.drop_last());
    }
}

/// The words of `s`, each as its characters.
pub fn split_words(s: &Vec<char>) -> (r: Vec<Vec<char>>)
    ensures
        r@.map_values(|w: Vec<char>| w@) == words(s@),
{
    let n = s.len();
    let mut r: Vec<Vec<char>> = Vec::new();
    let mut cur: Vec<char> = Vec::new();
    let mut i: usize = 0;
    while i < n
        invariant
            n == s.len(),
            i <= n,
            cur@.len() <= i,
            cur@ == s@.subrange(i - cur@.len(), i as int),
            cur@.len() > 0 ==> (i - cur@.len() == 0 || is_ws(s@[i - cur@.len() - 1])),
            forall|k: int| i - cur@.len() <= k < i ==> !is_ws(#[trigger] s@[k]),
            cur@.len() == 0 ==> words(s@.subrange(0, i as int)) == r@.map_values(
                |w: Vec<char>| w@,
            ),
            cur@.len() == 0 && i > 0 ==> is_ws(s@[i - 1]) || i == 0,
            cur@.len() > 0 ==> words(s@.subrange(0, i - cur@.len())) == r@.map_values(
                |w: Vec<char>| w@,
            ),
        decreases n - i,
    {
        let c = s[i];
        let ghost p = s@.subrange(0, i + 1);
        proof {
            assert(p.drop_last() =~= s@.subrange(0, i as int));
            assert(p.last() == c);
        }
        if is_whitespace(c) {
            if cur.len() > 0 {
                proof {
                    lemma_words_last(s@.subrange(0, i as int), i - cur@.len());
                    assert(s@.subrange(0, i as int).subrange(0, i - cur@.len()) =~= s@.subrange(
                        0,
                        i - cur@.len(),
                    ));
                    assert(s@.subrange(0, i as int).subrange(i - cur@.len(), i as int)
                        =~= cur@);
                }
                let ghost before = r@;
                let ghost ws = words(s@.subrange(0, i as int));
                r.push(cur);
                cur = Vec::new();
                proof {
                    assert(ws =~= ws.drop_last().push(ws.last()));
                    assert(r@.map_values(|w: Vec<char>| w@) =~= before.map_values(
                        |w: Vec<char>| w@,
                    ).push(ws.last()));
                }
            }
        } else {
            proof {
                if cur@.len() > 0 {
                    assert(!is_ws(s@[i - 1]));
                }
            }
            cur.push(c);
            proof {
                assert(s@.subrange(i + 1 - cur@.len(), i + 1) =~= cur@);
            }
        }
        i = i + 1;
    }
    if cur.len() > 0 {
        proof {
            lemma_words_last(s@.subrange(0, n as int), n - cur@.len());
            assert(s@.subrange(0, n as int).subrange(0, n - cur@.len()) =~= s@.subrange(
                0,
                n - cur@.len(),
            ));
            assert(s@.subrange(0, n as int).subrange(n - cur@.len(), n as int) =~= cur@);
        }
        let ghost before = r@;
        let ghost ws = words(s@.subrange(0, n as int));
        r.push(cur);
        proof {
            assert(ws =~= ws.drop_last().push(ws.last()));
            assert(r@.map_values(|w: Vec<char>| w@) =~= before.map_values(|w: Vec<char>| w@).push(
                ws.last(),
            ));
        }
    }
    assert(s@.subrange(0, n as int) =~= s@);
    r
}

/// Every character of `s` is ASCII.
pub open spec fn is_ascii_text(s: Seq<char>) -> bool {
    forall|i: int| 0 <= i < s.len() ==> (#[trigger] s[i] as u32) < 128
}

/// The ASCII lower case of a character: `'A'..='Z'` become `'a'..='z'`,
/// every other character stays.
pub open spec fn ascii_lower_char(c: char) -> char {
    if 65 <= (c as u32) <= 90 {
        ((c as u32) + 32) as char
    } else {
        c
    }
}

/// The ASCII upper case of a character: `'a'..='z'` become `'A'..='Z'`,
/// every other character stays.
pub open spec fn ascii_upper_char(c: char) -> char {
    if 97 <= (c as u32) <= 122 {
        ((c as u32) - 32) as char
    } else {
        c
    }
}

/// A text in ASCII lower case (what `str::to_ascii_lowercase` returns).
pub open spec fn ascii_lower(s: Seq<char>) -> Seq<char> {
    s.map_values(|c: char| ascii_lower_char(c))
}

/// A text in ASCII upper case (what `str::to_ascii_uppercase` returns).
pub open spec fn ascii_upper(s: Seq<char>) -> Seq<char> {
    s.map_values(|c: char| ascii_upper_char(c))
}

/// The lower-case form of a text under Unicode's case mapping, as
/// `str::to_lowercase` computes it.
pub uninterp spec fn lowercase(s: Seq<char>) -> Seq<char>;

/// Calls `str::to_lowercase` (std). Trusted to return `lowercase` of its
/// argument: the result depends on the characters of `s` alone. Three
/// facts of Unicode's lower-case mapping, which std follows, are stated:
/// - ASCII: `'A'..='Z'` map to `'a'..='z'` and every other ASCII character
///   to itself, with no context-dependent rule, so an ASCII text is lowered
///   character by character;
/// - whitespace characters are not cased and have no lower-case mapping,
///   so a text made only of whitespace is its own lower case;
/// - the one context-dependent mapping (final sigma) looks only across
///   cased and case-ignorable characters, and a space is neither, so a text
///   split at a space is lowered part by part.
/// Nothing else is stated of the mapping (it follows Unicode's tables).
#[verifier::external_body]
pub(crate) fn to_lowercase(s: &str) -> (r: String)
    ensures
        r@ == lowercase(s@),
        is_ascii_text(s@) ==> r@ == ascii_lower(s@),
        (forall|i: int| 0 <= i < s@.len() ==> is_ws(#[trigger] s@[i])) ==> r@ == s@,
        forall|a: Seq<char>, b: Seq<char>|
            #![trigger lowercase(a), lowercase(b)]
            s@ == a + seq![' '] + b ==> r@ == lowercase(a) + seq![' '] + lowercase(b),
{
    s.to_lowercase()
}

/// A text ending in a non-whitespace character has a word.
proof fn lemma_words_nonempty(s: Seq<char>)
    requires
        s.len() > 0,
        !is_ws(s.last()),
    ensures
        words(s).len() > 0,
    decreases s.len(),
{
    if s.len() >= 2 && !is_ws(s[s.len() - 2]) {
        assert(s.drop_last().last() == s[s.len() - 2]);
        lemma_words_nonempty(s.drop_last());
    }
}

/// Joining two texts with a whitespace character joins their words.
pub proof fn lemma_words_join(a: Seq<char>, c: char, b: Seq<char>)
    requires
        is_ws(c),
    ensures
        words(a + seq![c] + b) == words(a) + words(b),
    decreases b.len(),
{
    let s = a + seq![c] + b;
    if b.len() == 0 {
        assert(s.drop_last() =~= a);
        assert(words(a) + words(b) =~= words(a));
    } else {
        let b1 = b.drop_last();
        let d = b.last();
        lemma_words_join(a, c, b1);
        assert(s.drop_last() =~= a + seq![c] + b1);
        assert(s.last() == d);
        let wa = words(a);
        let wb1 = words(b1);
        if is_ws(d) {
        } else if b1.len() > 0 && !is_ws(b1.last()) {
            assert(s[s.len() - 2] == b1.last());
            assert(b[b.len() - 2] == b1.last());
            lemma_words_nonempty(b1);
            assert((wa + wb1).update((wa + wb1).len() - 1, (wa + wb1).last().push(d)) =~= wa
                + wb1.update(wb1.len() - 1, wb1.last().push(d)));
        } else {
            if b1.len() > 0 {
                assert(s[s.len() - 2] == b1.last());
                assert(b[b.len() - 2] == b1.last());
            } else {
                assert(s[s.len() - 2] == c);
            }
            assert((wa + wb1).push(seq![d]) =~= wa + wb1.push(seq![d]));
        }
    }
}

/// Upper-casing first changes nothing of the ASCII lower case, and keeps
/// the text ASCII.
pub proof fn lemma_ascii_lower_of_upper(s: Seq<char>)
    requires
        is_ascii_text(s),
    ensures
        is_ascii_text(ascii_upper(s)),
        ascii_lower(ascii_upper(s)) == ascii_lower(s),
        is_ascii_text(ascii_lower(s)),
        ascii_lower(ascii_lower(s)) == ascii_lower(s),
{
    assert forall|i: int| 0 <= i < s.len() implies (#[trigger] ascii_upper(s)[i] as u32) < 128
        && ascii_lower_char(ascii_upper(s)[i]) == ascii_lower_char(s[i]) && (
    ascii_lower(s)[i] as u32) < 128 && ascii_lower_char(ascii_lower(s)[i]) == ascii_lower_char(
        s[i],
    ) by {
        let c = s[i];
        assert((c as u32) < 128);
    }
    assert(ascii_lower(ascii_upper(s)) =~= ascii_lower(s));
    assert(ascii_lower(ascii_lower(s)) =~= ascii_lower(s));
}

/// A text made only of whitespace has no words.
pub proof fn lemma_words_of_whitespace(s: Seq<char>)
    requires
        forall|i: int| 0 <= i < s.len() ==> is_ws(#[trigger] s[i]),
    ensures
        words(s).len() == 0,
    decreases s.len(),
{
    if s.len() > 0 {
        assert(is_ws(s[s.len() - 1]));
        lemma_words_of_whitespace(s.drop_last());
    }
}

/// A non-empty text without whitespace is a single word.
pub proof fn lemma_words_single(s: Seq<char>)
    requires
        s.len() > 0,
        forall|i: int| 0 <= i < s.len() ==> !is_ws(#[trigger] s[i]),
    ensures
        words(s) == seq![s],
    decreases s.len(),
{
    assert(!is_ws(s[s.len() - 1]));
    if s.len() == 1 {
        assert(s.drop_last().len() == 0);
        assert(words(s.drop_last()) =~= Seq::<Seq<char>>::empty());
        assert(seq![s.last()] =~= s);
        assert(Seq::<Seq<char>>::empty().push(seq![s.last()]) =~= seq![s]);
    } else {
        let p = s.drop_last();
        assert forall|i: int| 0 <= i < p.len() implies !is_ws(#[trigger] p[i]) by {
            assert(p[i] == s[i]);
        }
        lemma_words_single(p);
        assert(!is_ws(s[s.len() - 2]));
        assert(p.push(s.last()) =~= s);
        let w = words(p);
        assert(w.len() == 1 && w.last() == p);
        assert(w.update(w.len() - 1, w.last().push(s.last())) =~= seq![s]);
    }
}

} // verus!
