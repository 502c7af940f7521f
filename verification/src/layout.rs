//! The layout language of a form: every non-blank line is a row, and a
//! `{{name}}` placeholder in a line stands for the input field `name`.
//!
//! Placeholders follow the pattern `\{\{(.*)\}\}` with leftmost-first,
//! greedy matching: the placeholder of a line opens at its first `{{` and
//! closes at its last `}}` (at least two characters after the opening).
use vstd::prelude::*;
use vstd::string::*;
use crate::text::{chars_of, trim, trim_range};

verus! {

/// A piece of a layout row: literal text or the id of an input field.
#[derive(Debug, Clone, PartialEq, Eq)]
pub enum Token {
    Text(String),
    Field(String),
}

/// The mathematical value of a [`Token`].
pub enum TokenView {
    Text(Seq<char>),
    Field(Seq<char>),
}

impl View for Token {
    type V = TokenView;

    open spec fn view(&self) -> TokenView {
        match self {
            Token::Text(s) => TokenView::Text(s@),
            Token::Field(s) => TokenView::Field(s@),
        }
    }
}

/// The values of a row of tokens.
pub open spec fn tokens_view(ts: Seq<Token>) -> Seq<TokenView> {
    ts.map_values(|t: Token| t@)
}

/// The values of a sequence of rows.
pub open spec fn rows_view(rows: Seq<Vec<Token>>) -> Seq<Seq<TokenView>> {
    rows.map_values(|r: Vec<Token>| tokens_view(r@))
}

/// `{{` starts at index `k` of `s`.
pub open spec fn open_at(s: Seq<char>, k: int) -> bool {
    0 <= k && k + 1 < s.len() && s[k] == '{' && s[k + 1] == '{'
}

/// `}}` starts at index `k` of `s`.
pub open spec fn close_at(s: Seq<char>, k: int) -> bool {
    0 <= k && k + 1 < s.len() && s[k] == '}' && s[k + 1] == '}'
}

/// Some `{{` is followed, at least two characters later, by some `}}`.
pub open spec fn has_field(s: Seq<char>) -> bool {
    exists|i: int, j: int| open_at(s, i) && close_at(s, j) && i + 2 <= j
}

/// The placeholder of `s` opens at `i` (the first `{{`) and closes at `j`
/// (the last `}}`), the name being `s[i + 2 .. j]`.
pub open spec fn is_field_span(s: Seq<char>, i: int, j: int) -> bool {
    &&& open_at(s, i)
    &&& close_at(s, j)
    &&& i + 2 <= j
    &&& forall|k: int| 0 <= k < i ==> !open_at(s, k)
    &&& forall|k: int| j < k ==> !close_at(s, k)
}

/// A text token for `x`, or nothing when `x` is empty.
pub open spec fn text_tokens(x: Seq<char>) -> Seq<TokenView> {
    if x.len() == 0 {
        Seq::empty()
    } else {
        seq![TokenView::Text(x)]
    }
}

/// The tokens of one (trimmed) line: the text before the placeholder, the
/// placeholder, the text after it; empty texts are left out.
pub open spec fn tokenize(t: Seq<char>) -> Seq<TokenView> {
    if has_field(t) {
        let ij = choose|ij: (int, int)| is_field_span(t, ij.0, ij.1);
        text_tokens(t.subrange(0, ij.0)) + seq![TokenView::Field(t.subrange(ij.0 + 2, ij.1))]
            + text_tokens(t.subrange(ij.1 + 2, t.len() as int))
    } else {
        text_tokens(t)
    }
}

/// `s` cut at every `'\n'` (a text with `n` newlines has `n + 1` pieces).
pub open spec fn lines(s: Seq<char>) -> Seq<Seq<char>>
    decreases s.len(),
{
    if s.len() == 0 {
        seq![Seq::<char>::empty()]
    } else if s.last() == '\n' {
        lines(s.drop_last()).push(Seq::empty())
    } else {
        let l = lines(s.drop_last());
        l.update(l.len() - 1, l.last().push(s.last()))
    }
}

/// The row that one line contributes: none for a blank line, else the
/// tokens of the trimmed line.
pub open spec fn line_row(piece: Seq<char>) -> Seq<Seq<TokenView>> {
    let t = trim(piece);
    if t.len() == 0 {
        Seq::empty()
    } else {
        seq![tokenize(t)]
    }
}

/// The rows that a sequence of lines contributes, in order.
pub open spec fn rows_of(pieces: Seq<Seq<char>>) -> Seq<Seq<TokenView>>
    decreases pieces.len(),
{
    if pieces.len() == 0 {
        Seq::empty()
    } else {
        rows_of(pieces.drop_last()) + line_row(pieces.last())
    }
}

/// The parsed structure of a layout.
pub open spec fn layout_rows(layout: Seq<char>) -> Seq<Seq<TokenView>> {
    rows_of(lines(layout))
}

/// At most one placeholder span exists.
pub proof fn lemma_field_span_unique(s: Seq<char>, i: int, j: int, i2: int, j2: int)
    requires
        is_field_span(s, i, j),
        is_field_span(s, i2, j2),
    ensures
        i == i2,
        j == j2,
{
    if i < i2 {
        assert(!open_at(s, i));
    }
    if i2 < i {
        assert(!open_at(s, i2));
    }
    if j < j2 {
        assert(!close_at(s, j2));
    }
    if j2 < j {
        assert(!close_at(s, j));
    }
}

/// The string made of `layout[a..b]`.
fn text_of(layout: &str, a: usize, b: usize) -> (r: String)
    requires
        a <= b <= layout@.len(),
    ensures
        r@ == layout@.subrange(a as int, b as int),
{
    layout.substring_char(a, b).to_owned()
}

/// The tokens of the trimmed line `cs[x..y]` of `layout`.
fn tokenize_range(layout: &str, cs: &Vec<char>, x: usize, y: usize) -> (r: Vec<Token>)
    requires
        cs@ == layout@,
        x <= y <= cs.len(),
    ensures
        tokens_view(r@) == tokenize(cs@.subrange(x as int, y as int)),
{
    let ghost t = cs@.subrange(x as int, y as int);
    let mut i = x;
    while y - i > 1 && !(cs[i] == '{' && cs[i + 1] == '{')
        invariant
            x <= i <= y <= cs.len(),
            t == cs@.subrange(x as int, y as int),
            forall|k: int| 0 <= k < i - x ==> !open_at(t, k),
        decreases y - i,
    {
        i = i + 1;
    }
    let mut r: Vec<Token> = Vec::new();
    if y - i <= 1 {
        assert(!has_field(t));
        if x < y {
            r.push(Token::Text(text_of(layout, x, y)));
        }
        assert(tokens_view(r@) =~= text_tokens(t));
        return r;
    }
    assert(open_at(t, i - x));
    let mut e = y;
    while e - i >= 4 && !(cs[e - 2] == '}' && cs[e - 1] == '}')
        invariant
            x <= i,
            i + 2 <= e <= y <= cs.len(),
            i + 1 < y,
            t == cs@.subrange(x as int, y as int),
            forall|k: int| e - 1 - x <= k ==> !close_at(t, k),
        decreases e,
    {
        e = e - 1;
    }
    if e - i < 4 {
        assert(!has_field(t)) by {
            assert forall|i2: int, j2: int|
                open_at(t, i2) && close_at(t, j2) && i2 + 2 <= j2 implies false by {
                if i2 < i - x {
                    assert(!open_at(t, i2));
                }
            }
        }
        r.push(Token::Text(text_of(layout, x, y)));
        assert(tokens_view(r@) =~= text_tokens(t));
        return r;
    }
    let ghost fi = i - x;
    let ghost fj = e - 2 - x;
    assert(is_field_span(t, fi, fj));
    proof {
        let w = (fi, fj);
        assert(is_field_span(t, w.0, w.1));
        let ij = choose|ij: (int, int)| is_field_span(t, ij.0, ij.1);
        lemma_field_span_unique(t, fi, fj, ij.0, ij.1);
    }
    if x < i {
        r.push(Token::Text(text_of(layout, x, i)));
    }
    let ghost before = r@;
    r.push(Token::Field(text_of(layout, i + 2, e - 2)));
    let ghost middle = r@;
    if e < y {
        r.push(Token::Text(text_of(layout, e, y)));
    }
    assert(t.subrange(0, fi) =~= cs@.subrange(x as int, i as int));
    assert(t.subrange(fi + 2, fj) =~= cs@.subrange(i + 2, e - 2));
    assert(t.subrange(fj + 2, t.len() as int) =~= cs@.subrange(e as int, y as int));
    assert(tokens_view(before) =~= text_tokens(t.subrange(0, fi)));
    assert(tokens_view(middle) =~= tokens_view(before) + seq![
        TokenView::Field(t.subrange(fi + 2, fj)),
    ]);
    assert(tokens_view(r@) =~= tokens_view(middle) + text_tokens(
        t.subrange(fj + 2, t.len() as int),
    ));
    r
}

/// Appends to `rows` the row of the line `cs[a..b]` of `layout`, if any.
fn push_line_row(layout: &str, cs: &Vec<char>, a: usize, b: usize, rows: &mut Vec<Vec<Token>>)
    requires
        cs@ == layout@,
        a <= b <= cs.len(),
    ensures
        rows_view(final(rows)@) == rows_view(old(rows)@) + line_row(
            cs@.subrange(a as int, b as int),
        ),
{
    let (x, y) = trim_range(cs, a, b);
    if x < y {
        let row = tokenize_range(layout, cs, x, y);
        let ghost prev = rows@;
        rows.push(row);
        assert(rows_view(rows@) =~= rows_view(prev).push(tokens_view(row@)));
    } else {
        assert(rows_view(rows@) =~= rows_view(rows@) + Seq::<Seq<TokenView>>::empty());
    }
}

/// Parses a layout into rows of tokens: one row per non-blank line (lines
/// are cut at `'\n'` and trimmed of whitespace), each row holding the text
/// around the line's `{{name}}` placeholder and the placeholder's name.
pub fn parse_layout(layout: &str) -> (rows: Vec<Vec<Token>>)
    ensures
        rows_view(rows@) == layout_rows(layout@),
{
    let cs = chars_of(layout);
    let n = cs.len();
    let mut rows: Vec<Vec<Token>> = Vec::new();
    let mut start: usize = 0;
    let ghost mut done: Seq<Seq<char>> = Seq::empty();
    let mut i: usize = 0;
    proof {
        let e = cs@.subrange(0, 0);
        assert(e =~= Seq::<char>::empty());
        assert(lines(e) =~= done.push(e));
    }
    while i < n
        invariant
            cs@ == layout@,
            n == cs.len(),
            start <= i <= n,
            lines(cs@.subrange(0, i as int)) == done.push(cs@.subrange(start as int, i as int)),
            rows_view(rows@) == rows_of(done),
        decreases n - i,
    {
        proof {
            let p = cs@.subrange(0, i + 1);
            assert(p.drop_last() =~= cs@.subrange(0, i as int));
            assert(p.last() == cs@[i as int]);
        }
        if cs[i] == '\n' {
            push_line_row(layout, &cs, start, i, &mut rows);
            proof {
                let d2 = done.push(cs@.subrange(start as int, i as int));
                assert(d2.drop_last() =~= done);
                done = d2;
                assert(cs@.subrange((i + 1) as int, (i + 1) as int) =~= Seq::<char>::empty());
            }
            start = i + 1;
        } else {
            proof {
                assert(cs@.subrange(start as int, i + 1) =~= cs@.subrange(
                    start as int,
                    i as int,
                ).push(cs@[i as int]));
                let d2 = done.push(cs@.subrange(start as int, i as int));
                assert(d2.update(d2.len() - 1, d2.last().push(cs@[i as int])) =~= done.push(
                    cs@.subrange(start as int, i + 1),
                ));
            }
        }
        i = i + 1;
    }
    push_line_row(layout, &cs, start, n, &mut rows);
    proof {
        let d2 = done.push(cs@.subrange(start as int, n as int));
        assert(d2.drop_last() =~= done);
        assert(cs@.subrange(0, n as int) =~= layout@);
    }
    rows
}

/// How a token is written in a layout: text as is, a field as `{{name}}`.
pub open spec fn token_source(t: TokenView) -> Seq<char> {
    match t {
        TokenView::Text(s) => s,
        TokenView::Field(name) => seq!['{', '{'] + name + seq!['}', '}'],
    }
}

/// How a row of tokens is written in a layout.
pub open spec fn render(tokens: Seq<TokenView>) -> Seq<char>
    decreases tokens.len(),
{
    if tokens.len() == 0 {
        Seq::empty()
    } else {
        render(tokens.drop_last()) + token_source(tokens.last())
    }
}

proof fn lemma_render_append(a: Seq<TokenView>, b: Seq<TokenView>)
    ensures
        render(a + b) == render(a) + render(b),
    decreases b.len(),
{
    if b.len() == 0 {
        assert(a + b =~= a);
        assert(render(a) + render(b) =~= render(a));
    } else {
        lemma_render_append(a, b.drop_last());
        assert((a + b).drop_last() =~= a + b.drop_last());
        assert(render(a) + render(b.drop_last()) + token_source(b.last()) =~= render(a) + (
        render(b.drop_last()) + token_source(b.last())));
    }
}

proof fn lemma_render_one(t: TokenView)
    ensures
        render(seq![t]) == token_source(t),
{
    let ts = seq![t];
    assert(ts.drop_last().len() == 0);
    assert(render(ts.drop_last()) =~= Seq::<char>::empty());
    assert(render(ts) =~= token_source(t));
}

proof fn lemma_render_text(x: Seq<char>)
    ensures
        render(text_tokens(x)) == x,
{
    if x.len() > 0 {
        lemma_render_one(TokenView::Text(x));
    } else {
        assert(x =~= Seq::<char>::empty());
    }
}

proof fn lemma_render_three(x: Seq<char>, name: Seq<char>, y: Seq<char>)
    ensures
        render(text_tokens(x) + seq![TokenView::Field(name)] + text_tokens(y)) == x + (seq![
            '{',
            '{',
        ] + name + seq!['}', '}']) + y,
{
    let a = text_tokens(x);
    let b = seq![TokenView::Field(name)];
    let c = text_tokens(y);
    lemma_render_append(a + b, c);
    lemma_render_append(a, b);
    lemma_render_text(x);
    lemma_render_text(y);
    lemma_render_one(TokenView::Field(name));
}

/// Writing the tokens of a line back, each placeholder as `{{name}}`,
/// gives the line again: parsing loses nothing.
pub proof fn lemma_tokenize_render(t: Seq<char>)
    ensures
        render(tokenize(t)) == t,
{
    if has_field(t) {
        lemma_field_span_exists(t);
        let ij = choose|ij: (int, int)| is_field_span(t, ij.0, ij.1);
        lemma_render_three(
            t.subrange(0, ij.0),
            t.subrange(ij.0 + 2, ij.1),
            t.subrange(ij.1 + 2, t.len() as int),
        );
        assert(t.subrange(0, ij.0) + (seq!['{', '{'] + t.subrange(ij.0 + 2, ij.1) + seq![
            '}',
            '}',
        ]) + t.subrange(ij.1 + 2, t.len() as int) =~= t);
    } else {
        lemma_render_text(t);
    }
}

/// A line with a placeholder has its placeholder span.
proof fn lemma_field_span_exists(t: Seq<char>)
    requires
        has_field(t),
    ensures
        exists|ij: (int, int)| is_field_span(t, ij.0, ij.1),
{
    let (i, j) = choose|i: int, j: int| open_at(t, i) && close_at(t, j) && i + 2 <= j;
    lemma_first_open(t, i);
    lemma_last_close(t, j);
    let first = choose|k: int|
        open_at(t, k) && k <= i && forall|m: int| 0 <= m < k ==> !open_at(t, m);
    let last = choose|k: int|
        close_at(t, k) && k >= j && forall|m: int| k < m ==> !close_at(t, m);
    let w = (first, last);
    assert(is_field_span(t, w.0, w.1));
}

/// Some `{{` comes first.
proof fn lemma_first_open(t: Seq<char>, i: int)
    requires
        open_at(t, i),
    ensures
        exists|k: int| open_at(t, k) && k <= i && forall|m: int| 0 <= m < k ==> !open_at(t, m),
    decreases i,
{
    if exists|m: int| 0 <= m < i && open_at(t, m) {
        let m = choose|m: int| 0 <= m < i && open_at(t, m);
        lemma_first_open(t, m);
    } else {
        assert(forall|m: int| 0 <= m < i ==> !open_at(t, m));
    }
}

/// Some `}}` comes last.
proof fn lemma_last_close(t: Seq<char>, j: int)
    requires
        close_at(t, j),
    ensures
        exists|k: int| close_at(t, k) && k >= j && forall|m: int| k < m ==> !close_at(t, m),
    decreases t.len() - j,
{
    if exists|m: int| j < m && close_at(t, m) {
        let m = choose|m: int| j < m && close_at(t, m);
        lemma_last_close(t, m);
    } else {
        assert(forall|m: int| j < m ==> !close_at(t, m));
    }
}

/// The trimmed non-blank lines among `pieces`, in order.
pub open spec fn nonblank_lines(pieces: Seq<Seq<char>>) -> Seq<Seq<char>>
    decreases pieces.len(),
{
    if pieces.len() == 0 {
        Seq::empty()
    } else {
        let t = trim(pieces.last());
        nonblank_lines(pieces.drop_last()) + if t.len() == 0 {
            Seq::<Seq<char>>::empty()
        } else {
            seq![t]
        }
    }
}

/// A row as the parser makes them: one to three tokens, no empty text,
/// at most one placeholder.
pub open spec fn well_shaped_row(r: Seq<TokenView>) -> bool {
    &&& 1 <= r.len() <= 3
    &&& forall|a: int|
        0 <= a < r.len() ==> match #[trigger] r[a] {
            TokenView::Text(s) => s.len() > 0,
            TokenView::Field(_) => true,
        }
    &&& forall|a: int, b: int|
        0 <= a < b < r.len() ==> !((#[trigger] r[a]) is Field && (#[trigger] r[b]) is Field)
}

proof fn lemma_tokenize_shape(t: Seq<char>)
    requires
        t.len() > 0,
    ensures
        well_shaped_row(tokenize(t)),
{
    if has_field(t) {
        let ij = choose|ij: (int, int)| is_field_span(t, ij.0, ij.1);
        lemma_field_span_exists(t);
        let a = text_tokens(t.subrange(0, ij.0));
        let b = seq![TokenView::Field(t.subrange(ij.0 + 2, ij.1))];
        let c = text_tokens(t.subrange(ij.1 + 2, t.len() as int));
        let r = a + b + c;
        assert(tokenize(t) == r);
        assert forall|x: int, y: int| 0 <= x < y < r.len() implies !((#[trigger] r[x]) is Field
            && (#[trigger] r[y]) is Field) by {
            if a.len() == 1 {
                assert(r[0] is Text);
            }
            if c.len() == 1 {
                assert(r[r.len() - 1] is Text);
            }
        }
    }
}

/// The rows that `pieces` contribute are well shaped, and written back they
/// are the trimmed non-blank lines.
proof fn lemma_rows_of(pieces: Seq<Seq<char>>)
    ensures
        forall|k: int| 0 <= k < rows_of(pieces).len() ==> well_shaped_row(#[trigger] rows_of(pieces)[k]),
        rows_of(pieces).map_values(|r: Seq<TokenView>| render(r)) == nonblank_lines(pieces),
    decreases pieces.len(),
{
    if pieces.len() > 0 {
        lemma_rows_of(pieces.drop_last());
        let prev = rows_of(pieces.drop_last());
        let t = trim(pieces.last());
        if t.len() > 0 {
            lemma_tokenize_shape(t);
            lemma_tokenize_render(t);
            assert((prev + seq![tokenize(t)]).map_values(|r: Seq<TokenView>| render(r)) =~= prev.map_values(
                |r: Seq<TokenView>| render(r),
            ) + seq![t]);
        } else {
            assert(prev + Seq::<Seq<TokenView>>::empty() =~= prev);
            assert(nonblank_lines(pieces.drop_last()) + Seq::<Seq<char>>::empty()
                =~= nonblank_lines(pieces.drop_last()));
        }
    }
}

/// The law of the layout language: a layout parses into one row per
/// non-blank line, in order; each row has one to three tokens, no empty
/// text and at most one placeholder; and writing a row back (each
/// placeholder as `{{name}}`) gives its line, trimmed.
pub proof fn lemma_layout_rows(layout: Seq<char>)
    ensures
        forall|k: int|
            0 <= k < layout_rows(layout).len() ==> well_shaped_row(
                #[trigger] layout_rows(layout)[k],
            ),
        layout_rows(layout).map_values(|r: Seq<TokenView>| render(r)) == nonblank_lines(
            lines(layout),
        ),
        layout_rows(layout).len() == nonblank_lines(lines(layout)).len(),
{
    lemma_rows_of(lines(layout));
}

} // verus!
