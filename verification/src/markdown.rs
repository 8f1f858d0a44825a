//! The inline markdown that a text block renders once it loses focus:
//! `**bold**` and `*italic*` runs, whose markers are hidden, and the edits
//! that the formatting shortcuts make.

use vstd::prelude::*;
use vstd::string::StrSliceExecFns;
use crate::text::push_str;

verus! {

/// How a span of a text block is drawn.
#[derive(PartialEq, Eq, Structural, Clone, Copy, Debug)]
pub enum SpanStyle {
    /// A marker (`*` or `**`) that is not shown.
    Hidden,
    Bold,
    Italic,
}

/// A styled character range `[start, end)` of a text block.
#[derive(PartialEq, Eq, Structural, Clone, Copy, Debug)]
pub struct Span {
    pub style: SpanStyle,
    pub start: usize,
    pub end: usize,
}

/// Position `j` starts a `**` pair.
pub open spec fn double_star_at(c: Seq<char>, j: int) -> bool {
    0 <= j && j + 1 < c.len() && c[j] == '*' && c[j + 1] == '*'
}

/// The first position at or after `k` that starts a `**` pair.
pub open spec fn next_double_star(c: Seq<char>, k: int) -> Option<int>
    decreases c.len() - k,
{
    if k < 0 || k + 1 >= c.len() {
        None
    } else if double_star_at(c, k) {
        Some(k)
    } else {
        next_double_star(c, k + 1)
    }
}

/// The first position at or after `k` that holds a `*`.
pub open spec fn next_star(c: Seq<char>, k: int) -> Option<int>
    decreases c.len() - k,
{
    if k < 0 || k >= c.len() {
        None
    } else if c[k] == '*' {
        Some(k)
    } else {
        next_star(c, k + 1)
    }
}

pub open spec fn span(style: SpanStyle, start: int, end: int) -> Span {
    Span { style, start: start as usize, end: end as usize }
}

/// The spans found by scanning `c` from position `i`: a `**` opens a bold
/// run closed by the next `**` (both markers hidden); otherwise a `*` opens
/// an italic run closed by the next `*`, provided the run is not empty; a
/// marker without its closing partner is plain text. Scanning resumes after
/// the closing marker.
pub open spec fn spans_from(c: Seq<char>, i: int) -> Seq<Span>
    decreases c.len() - i,
{
    if i < 0 || i >= c.len() {
        Seq::empty()
    } else if double_star_at(c, i) {
        proof { lemma_next_double_star_in_range(c, i + 2); }
        match next_double_star(c, i + 2) {
            Some(j) => if j >= i + 2 {
                seq![span(SpanStyle::Hidden, i, i + 2), span(SpanStyle::Bold, i + 2, j),
                    span(SpanStyle::Hidden, j, j + 2)] + spans_from(c, j + 2)
            } else {
                spans_from(c, i + 1)
            },
            None => spans_from(c, i + 1),
        }
    } else if c[i] == '*' {
        proof { lemma_next_star_in_range(c, i + 1); }
        match next_star(c, i + 1) {
            Some(j) => if j > i + 1 {
                seq![span(SpanStyle::Hidden, i, i + 1), span(SpanStyle::Italic, i + 1, j),
                    span(SpanStyle::Hidden, j, j + 1)] + spans_from(c, j + 1)
            } else {
                spans_from(c, i + 1)
            },
            None => spans_from(c, i + 1),
        }
    } else {
        spans_from(c, i + 1)
    }
}

/// The markdown spans of a whole text.
pub open spec fn markdown_spans_of(c: Seq<char>) -> Seq<Span> {
    spans_from(c, 0)
}

pub proof fn lemma_next_double_star_in_range(c: Seq<char>, k: int)
    ensures
        next_double_star(c, k) matches Some(j) ==> k <= j && double_star_at(c, j),
    decreases c.len() - k,
{
    if !(k < 0 || k + 1 >= c.len()) && !double_star_at(c, k) {
        lemma_next_double_star_in_range(c, k + 1);
    }
}

pub proof fn lemma_next_star_in_range(c: Seq<char>, k: int)
    ensures
        next_star(c, k) matches Some(j) ==> k <= j < c.len() && c[j] == '*',
    decreases c.len() - k,
{
    if !(k < 0 || k >= c.len()) && c[k] != '*' {
        lemma_next_star_in_range(c, k + 1);
    }
}

/// `sp` lies inside `c`, and a hidden span covers only `*` markers.
pub open spec fn well_placed(c: Seq<char>, sp: Span) -> bool {
    &&& sp.start <= sp.end <= c.len()
    &&& sp.style == SpanStyle::Hidden ==> forall|k: int| sp.start <= k < sp.end ==> c[k] == '*'
}

proof fn lemma_spans_from_well_placed(c: Seq<char>, i: int)
    requires
        0 <= i,
        c.len() <= usize::MAX,
    ensures
        forall|k: int| 0 <= k < spans_from(c, i).len() ==> well_placed(c, #[trigger] spans_from(c, i)[k]),
    decreases c.len() - i,
{
    if i >= c.len() {
    } else if double_star_at(c, i) {
        lemma_next_double_star_in_range(c, i + 2);
        match next_double_star(c, i + 2) {
            Some(j) => {
                lemma_spans_from_well_placed(c, j + 2);
                let head = seq![span(SpanStyle::Hidden, i, i + 2), span(SpanStyle::Bold, i + 2, j),
                    span(SpanStyle::Hidden, j, j + 2)];
                let all = spans_from(c, i);
                assert(all == head + spans_from(c, j + 2));
                assert forall|k: int| 0 <= k < all.len() implies well_placed(c, #[trigger] all[k]) by {
                    if k >= 3 {
                        assert(all[k] == spans_from(c, j + 2)[k - 3]);
                    }
                }
            },
            None => {
                lemma_spans_from_well_placed(c, i + 1);
                assert(spans_from(c, i) == spans_from(c, i + 1));
            },
        }
    } else if c[i] == '*' {
        lemma_next_star_in_range(c, i + 1);
        match next_star(c, i + 1) {
            Some(j) => {
                if j > i + 1 {
                    lemma_spans_from_well_placed(c, j + 1);
                    let head = seq![span(SpanStyle::Hidden, i, i + 1),
                        span(SpanStyle::Italic, i + 1, j), span(SpanStyle::Hidden, j, j + 1)];
                    let all = spans_from(c, i);
                    assert(all == head + spans_from(c, j + 1));
                    assert forall|k: int| 0 <= k < all.len() implies well_placed(c, #[trigger] all[k]) by {
                        if k >= 3 {
                            assert(all[k] == spans_from(c, j + 1)[k - 3]);
                        }
                    }
                } else {
                    lemma_spans_from_well_placed(c, i + 1);
                assert(spans_from(c, i) == spans_from(c, i + 1));
                }
            },
            None => {
                lemma_spans_from_well_placed(c, i + 1);
                assert(spans_from(c, i) == spans_from(c, i + 1));
            },
        }
    } else {
        lemma_spans_from_well_placed(c, i + 1);
        assert(spans_from(c, i) == spans_from(c, i + 1));
    }
}

/// Every span the renderer finds lies inside the text, and the characters
/// it hides are all `*` markers: rendering never hides the text itself.
pub proof fn law_spans_well_placed(c: Seq<char>)
    requires
        c.len() <= usize::MAX,
    ensures
        forall|k: int| 0 <= k < markdown_spans_of(c).len()
            ==> well_placed(c, #[trigger] markdown_spans_of(c)[k]),
{
    lemma_spans_from_well_placed(c, 0);
}

/// Three spans that render one run: a hidden opening marker, the styled
/// text and a hidden closing marker, next to each other; `**` around bold
/// text (possibly empty), `*` around italic text (never empty).
pub open spec fn is_run(h1: Span, m: Span, h2: Span) -> bool {
    &&& h1.style == SpanStyle::Hidden
    &&& h2.style == SpanStyle::Hidden
    &&& h1.end == m.start
    &&& m.end == h2.start
    &&& match m.style {
        SpanStyle::Bold => h1.end == h1.start + 2 && h2.end == h2.start + 2 && m.start <= m.end,
        SpanStyle::Italic => h1.end == h1.start + 1 && h2.end == h2.start + 1 && m.start < m.end,
        SpanStyle::Hidden => false,
    }
}

/// `sp` is a sequence of runs, from left to right and not overlapping, the
/// first starting at or after `from`.
pub open spec fn runs_from(sp: Seq<Span>, from: int) -> bool
    decreases sp.len(),
{
    if sp.len() == 0 {
        true
    } else {
        &&& sp.len() >= 3
        &&& sp[0].start >= from
        &&& is_run(sp[0], sp[1], sp[2])
        &&& runs_from(sp.skip(3), sp[2].end as int)
    }
}

proof fn lemma_runs_from_lower(sp: Seq<Span>, a: int, b: int)
    requires
        runs_from(sp, a),
        b <= a,
    ensures
        runs_from(sp, b),
{
}

proof fn lemma_spans_from_runs(c: Seq<char>, i: int)
    requires
        0 <= i,
        c.len() <= usize::MAX,
    ensures
        runs_from(spans_from(c, i), i),
    decreases c.len() - i,
{
    if i >= c.len() {
    } else if double_star_at(c, i) {
        lemma_next_double_star_in_range(c, i + 2);
        match next_double_star(c, i + 2) {
            Some(j) => {
                lemma_spans_from_runs(c, j + 2);
                let head = seq![span(SpanStyle::Hidden, i, i + 2), span(SpanStyle::Bold, i + 2, j),
                    span(SpanStyle::Hidden, j, j + 2)];
                let rest = spans_from(c, j + 2);
                assert(spans_from(c, i) == head + rest);
                assert((head + rest).skip(3) =~= rest);
            },
            None => {
                lemma_spans_from_runs(c, i + 1);
                lemma_runs_from_lower(spans_from(c, i + 1), i + 1, i);
                assert(spans_from(c, i) == spans_from(c, i + 1));
            },
        }
    } else if c[i] == '*' {
        lemma_next_star_in_range(c, i + 1);
        match next_star(c, i + 1) {
            Some(j) => {
                if j > i + 1 {
                    lemma_spans_from_runs(c, j + 1);
                    let head = seq![span(SpanStyle::Hidden, i, i + 1),
                        span(SpanStyle::Italic, i + 1, j), span(SpanStyle::Hidden, j, j + 1)];
                    let rest = spans_from(c, j + 1);
                    assert(spans_from(c, i) == head + rest);
                    assert((head + rest).skip(3) =~= rest);
                } else {
                    lemma_spans_from_runs(c, i + 1);
                    lemma_runs_from_lower(spans_from(c, i + 1), i + 1, i);
                    assert(spans_from(c, i) == spans_from(c, i + 1));
                }
            },
            None => {
                lemma_spans_from_runs(c, i + 1);
                lemma_runs_from_lower(spans_from(c, i + 1), i + 1, i);
                assert(spans_from(c, i) == spans_from(c, i + 1));
            },
        }
    } else {
        lemma_spans_from_runs(c, i + 1);
        lemma_runs_from_lower(spans_from(c, i + 1), i + 1, i);
        assert(spans_from(c, i) == spans_from(c, i + 1));
    }
}

/// The spans of a text come in runs of three, from left to right and not
/// overlapping: hidden `**`, bold text, hidden `**`; or hidden `*`,
/// non-empty italic text, hidden `*`. They depend on the text alone, so
/// rendering the same text again gives the same spans.
pub proof fn law_spans_form_runs(c: Seq<char>)
    requires
        c.len() <= usize::MAX,
    ensures
        runs_from(markdown_spans_of(c), 0),
{
    lemma_spans_from_runs(c, 0);
}

/// `sp` moved `d` characters to the right.
pub open spec fn shifted(sp: Seq<Span>, d: int) -> Seq<Span> {
    sp.map_values(|x: Span| span(x.style, x.start + d, x.end + d))
}

/// `w` holds no `*`.
pub open spec fn star_free(w: Seq<char>) -> bool {
    forall|k: int| 0 <= k < w.len() ==> w[k] != '*'
}

proof fn lemma_next_star_shift(a: Seq<char>, t: Seq<char>, m: int)
    requires
        0 <= m,
    ensures
        next_star(a + t, a.len() + m) == match next_star(t, m) {
            Some(j) => Some(a.len() + j),
            None => None::<int>,
        },
    decreases t.len() - m,
{
    let c = a + t;
    if m < t.len() {
        assert(c[a.len() + m] == t[m]);
        if t[m] != '*' {
            lemma_next_star_shift(a, t, m + 1);
        }
    }
}

proof fn lemma_next_double_star_shift(a: Seq<char>, t: Seq<char>, m: int)
    requires
        0 <= m,
    ensures
        next_double_star(a + t, a.len() + m) == match next_double_star(t, m) {
            Some(j) => Some(a.len() + j),
            None => None::<int>,
        },
    decreases t.len() - m,
{
    let c = a + t;
    if m + 1 < t.len() {
        assert(c[a.len() + m] == t[m]);
        assert(c[a.len() + m + 1] == t[m + 1]);
        if !double_star_at(t, m) {
            lemma_next_double_star_shift(a, t, m + 1);
        }
    }
}

proof fn lemma_shifted_concat(x: Seq<Span>, y: Seq<Span>, d: int)
    ensures
        shifted(x + y, d) == shifted(x, d) + shifted(y, d),
{
    assert(shifted(x + y, d) =~= shifted(x, d) + shifted(y, d));
}

/// Scanning a text behind a prefix finds the spans of the text alone,
/// moved right by the prefix's length.
proof fn lemma_spans_shift(a: Seq<char>, t: Seq<char>, i: int)
    requires
        0 <= i,
        a.len() + t.len() <= usize::MAX,
    ensures
        spans_from(a + t, a.len() + i) == shifted(spans_from(t, i), a.len() as int),
    decreases t.len() - i,
{
    let c = a + t;
    let d = a.len() as int;
    let p = d + i;
    if i >= t.len() {
        assert(shifted(Seq::<Span>::empty(), d) =~= Seq::<Span>::empty());
    } else {
        assert(c[p] == t[i]);
        if i + 1 < t.len() {
            assert(c[p + 1] == t[i + 1]);
        }
        if double_star_at(t, i) {
            assert(double_star_at(c, p));
            lemma_next_double_star_in_range(t, i + 2);
            lemma_next_double_star_shift(a, t, i + 2);
            match next_double_star(t, i + 2) {
                Some(j) => {
                    lemma_spans_shift(a, t, j + 2);
                    let head = seq![span(SpanStyle::Hidden, i, i + 2), span(SpanStyle::Bold, i + 2, j),
                        span(SpanStyle::Hidden, j, j + 2)];
                    let chead = seq![span(SpanStyle::Hidden, p, p + 2),
                        span(SpanStyle::Bold, p + 2, d + j), span(SpanStyle::Hidden, d + j, d + j + 2)];
                    assert(shifted(head, d) =~= chead);
                    lemma_shifted_concat(head, spans_from(t, j + 2), d);
                },
                None => {
                    lemma_spans_shift(a, t, i + 1);
                },
            }
        } else if t[i] == '*' {
            assert(!double_star_at(c, p));
            lemma_next_star_in_range(t, i + 1);
            lemma_next_star_shift(a, t, i + 1);
            match next_star(t, i + 1) {
                Some(j) => {
                    if j > i + 1 {
                        lemma_spans_shift(a, t, j + 1);
                        let head = seq![span(SpanStyle::Hidden, i, i + 1),
                            span(SpanStyle::Italic, i + 1, j), span(SpanStyle::Hidden, j, j + 1)];
                        let chead = seq![span(SpanStyle::Hidden, p, p + 1),
                            span(SpanStyle::Italic, p + 1, d + j),
                            span(SpanStyle::Hidden, d + j, d + j + 1)];
                        assert(shifted(head, d) =~= chead);
                        lemma_shifted_concat(head, spans_from(t, j + 1), d);
                    } else {
                        lemma_spans_shift(a, t, i + 1);
                    }
                },
                None => {
                    lemma_spans_shift(a, t, i + 1);
                },
            }
        } else {
            assert(!double_star_at(c, p));
            lemma_spans_shift(a, t, i + 1);
        }
    }
}

/// Text without markers renders plainly: in front of any text `t` it adds
/// no span and moves the spans of `t` right by its length.
pub proof fn law_plain_prefix(w: Seq<char>, t: Seq<char>)
    requires
        star_free(w),
        w.len() + t.len() <= usize::MAX,
    ensures
        markdown_spans_of(w + t) == shifted(markdown_spans_of(t), w.len() as int),
{
    lemma_spans_plain_steps(w, t, 0);
    lemma_spans_shift(w, t, 0);
}

proof fn lemma_spans_plain_steps(w: Seq<char>, t: Seq<char>, k: int)
    requires
        star_free(w),
        0 <= k <= w.len(),
    ensures
        spans_from(w + t, k) == spans_from(w + t, w.len() as int),
    decreases w.len() - k,
{
    if k < w.len() {
        let c = w + t;
        assert(c[k] == w[k]);
        assert(!double_star_at(c, k));
        lemma_spans_plain_steps(w, t, k + 1);
    }
}

/// A word between single stars renders italic, its stars hidden, and the
/// scan goes on after it: the rest of the text renders as it would alone,
/// moved right past the italic word.
pub proof fn law_italic_prefix(w: Seq<char>, t: Seq<char>)
    requires
        star_free(w),
        w.len() > 0,
        w.len() + 2 + t.len() <= usize::MAX,
    ensures
        ({
            let n = w.len() as int;
            markdown_spans_of(seq!['*'] + w + seq!['*'] + t) == seq![
                span(SpanStyle::Hidden, 0, 1),
                span(SpanStyle::Italic, 1, n + 1),
                span(SpanStyle::Hidden, n + 1, n + 2),
            ] + shifted(markdown_spans_of(t), n + 2)
        }),
{
    let n = w.len() as int;
    let a = seq!['*'] + w + seq!['*'];
    let c = seq!['*'] + w + seq!['*'] + t;
    assert(c == a + t);
    assert(c[0] == '*');
    assert(c[1] == w[0]);
    assert(!double_star_at(c, 0));
    assert forall|k: int| 1 <= k < n + 1 implies c[k] == w[k - 1] by {}
    assert(c[n + 1] == '*');
    lemma_next_star_skips(c, 1, n + 1);
    lemma_spans_shift(a, t, 0);
}

/// A word between double stars renders bold, its stars hidden, and the
/// scan goes on after it, as for italics.
pub proof fn law_bold_prefix(w: Seq<char>, t: Seq<char>)
    requires
        star_free(w),
        w.len() + 4 + t.len() <= usize::MAX,
    ensures
        ({
            let n = w.len() as int;
            markdown_spans_of(seq!['*', '*'] + w + seq!['*', '*'] + t) == seq![
                span(SpanStyle::Hidden, 0, 2),
                span(SpanStyle::Bold, 2, n + 2),
                span(SpanStyle::Hidden, n + 2, n + 4),
            ] + shifted(markdown_spans_of(t), n + 4)
        }),
{
    let n = w.len() as int;
    let a = seq!['*', '*'] + w + seq!['*', '*'];
    let c = seq!['*', '*'] + w + seq!['*', '*'] + t;
    assert(c == a + t);
    assert(c[0] == '*');
    assert(c[1] == '*');
    assert(double_star_at(c, 0));
    assert forall|k: int| 2 <= k < n + 2 implies c[k] == w[k - 2] by {}
    assert(c[n + 2] == '*');
    assert(c[n + 3] == '*');
    lemma_next_double_star_skips(c, 2, n + 2);
    lemma_spans_shift(a, t, 0);
}

proof fn lemma_next_star_skips(c: Seq<char>, k: int, j: int)
    requires
        0 <= k <= j < c.len(),
        c[j] == '*',
        forall|m: int| k <= m < j ==> c[m] != '*',
    ensures
        next_star(c, k) == Some(j),
    decreases j - k,
{
    if k < j {
        lemma_next_star_skips(c, k + 1, j);
    }
}

proof fn lemma_next_double_star_skips(c: Seq<char>, k: int, j: int)
    requires
        0 <= k <= j,
        j + 1 < c.len(),
        c[j] == '*',
        c[j + 1] == '*',
        forall|m: int| k <= m < j ==> c[m] != '*',
    ensures
        next_double_star(c, k) == Some(j),
    decreases j - k,
{
    if k < j {
        lemma_next_double_star_skips(c, k + 1, j);
    }
}

/// Finds the styled spans of `text`: hidden markers, bold and italic runs.
pub fn markdown_spans(text: &Vec<char>) -> (res: Vec<Span>)
    ensures
        res@ == markdown_spans_of(text@),
{
    let n = text.len();
    let mut res: Vec<Span> = Vec::new();
    let mut i: usize = 0;
    while i < n
        invariant
            n == text.len(),
            i <= n,
            markdown_spans_of(text@) == res@ + spans_from(text@, i as int),
        decreases n - i,
    {
        let ghost c = text@;
        if i + 1 < n && text[i] == '*' && text[i + 1] == '*' {
            let mut j: usize = i + 2;
            while j < n - 1 && !(text[j] == '*' && text[j + 1] == '*')
                invariant
                    n == text.len(),
                    n >= 2,
                    i + 2 <= j,
                    j <= n,
                    next_double_star(c, i + 2) == next_double_star(c, j as int),
                    c == text@,
                decreases n - j,
            {
                j = j + 1;
            }
            let found = j < n - 1;
            if found {
                assert(next_double_star(c, j as int) == Some(j as int));
                let ghost before = res@;
                res.push(Span { style: SpanStyle::Hidden, start: i, end: i + 2 });
                res.push(Span { style: SpanStyle::Bold, start: i + 2, end: j });
                res.push(Span { style: SpanStyle::Hidden, start: j, end: j + 2 });
                assert(res@ =~= before + seq![span(SpanStyle::Hidden, i as int, i + 2),
                    span(SpanStyle::Bold, i + 2, j as int), span(SpanStyle::Hidden, j as int, j + 2)]);
                assert(before + (seq![span(SpanStyle::Hidden, i as int, i + 2),
                    span(SpanStyle::Bold, i + 2, j as int), span(SpanStyle::Hidden, j as int, j + 2)]
                    + spans_from(c, j + 2)) =~= res@ + spans_from(c, j + 2));
                i = j + 2;
                continue;
            } else {
                assert(next_double_star(c, j as int) == None::<int>);
            }
        } else if text[i] == '*' {
            let mut j: usize = i + 1;
            while j < n && text[j] != '*'
                invariant
                    n == text.len(),
                    i + 1 <= j,
                    j <= n,
                    next_star(c, i + 1) == next_star(c, j as int),
                    c == text@,
                decreases n - j,
            {
                j = j + 1;
            }
            let found = j < n;
            if found && j > i + 1 {
                assert(next_star(c, j as int) == Some(j as int));
                let ghost before = res@;
                res.push(Span { style: SpanStyle::Hidden, start: i, end: i + 1 });
                res.push(Span { style: SpanStyle::Italic, start: i + 1, end: j });
                res.push(Span { style: SpanStyle::Hidden, start: j, end: j + 1 });
                assert(res@ =~= before + seq![span(SpanStyle::Hidden, i as int, i + 1),
                    span(SpanStyle::Italic, i + 1, j as int), span(SpanStyle::Hidden, j as int, j + 1)]);
                assert(before + (seq![span(SpanStyle::Hidden, i as int, i + 1),
                    span(SpanStyle::Italic, i + 1, j as int), span(SpanStyle::Hidden, j as int, j + 1)]
                    + spans_from(c, j + 1)) =~= res@ + spans_from(c, j + 1));
                i = j + 1;
                continue;
            } else if found {
                assert(next_star(c, j as int) == Some(j as int));
            } else {
                assert(next_star(c, j as int) == None::<int>);
            }
        }
        i = i + 1;
    }
    assert(res@ + spans_from(text@, i as int) =~= res@);
    res
}

/// The emphasis that a formatting shortcut (Ctrl with a letter) wraps the
/// selection in.
#[derive(PartialEq, Eq, Structural, Clone, Copy, Debug)]
pub enum Emphasis {
    Bold,
    Italic,
    Underline,
    Highlight,
}

/// The emphasis bound to a letter key pressed with Ctrl: `b`, `i`, `u` and
/// `h`, in either case.
pub open spec fn emphasis_for(key: char) -> Option<Emphasis> {
    if key == 'b' || key == 'B' {
        Some(Emphasis::Bold)
    } else if key == 'i' || key == 'I' {
        Some(Emphasis::Italic)
    } else if key == 'u' || key == 'U' {
        Some(Emphasis::Underline)
    } else if key == 'h' || key == 'H' {
        Some(Emphasis::Highlight)
    } else {
        None
    }
}

/// The shortcuts do not depend on the letter's case: a lower-case letter
/// and its upper-case form give the same emphasis; Ctrl+B bolds, Ctrl+I
/// italicises, Ctrl+U underlines and Ctrl+H highlights.
pub proof fn law_shortcut_case(k: char)
    requires
        'a' <= k <= 'z',
    ensures
        emphasis_for(k) == emphasis_for(((k as u32) - 32) as char),
        emphasis_for('b') == Some(Emphasis::Bold),
        emphasis_for('i') == Some(Emphasis::Italic),
        emphasis_for('u') == Some(Emphasis::Underline),
        emphasis_for('h') == Some(Emphasis::Highlight),
{
}

/// Only those four letters are shortcuts: any other key wraps nothing.
pub proof fn law_shortcut_keys(key: char)
    ensures
        emphasis_for(key) is Some <==> (key == 'b' || key == 'B' || key == 'i' || key == 'I'
            || key == 'u' || key == 'U' || key == 'h' || key == 'H'),
{
}

impl Emphasis {
    /// The emphasis for a Ctrl-letter shortcut, if the letter has one.
    pub fn for_key(key: char) -> (res: Option<Emphasis>)
        ensures
            res == emphasis_for(key),
    {
        if key == 'b' || key == 'B' {
            Some(Emphasis::Bold)
        } else if key == 'i' || key == 'I' {
            Some(Emphasis::Italic)
        } else if key == 'u' || key == 'U' {
            Some(Emphasis::Underline)
        } else if key == 'h' || key == 'H' {
            Some(Emphasis::Highlight)
        } else {
            None
        }
    }

    pub open spec fn spec_opening(self) -> Seq<char> {
        match self {
            Emphasis::Bold => "**"@,
            Emphasis::Italic => "*"@,
            Emphasis::Underline => "<u>"@,
            Emphasis::Highlight => "<mark>"@,
        }
    }

    pub open spec fn spec_closing(self) -> Seq<char> {
        match self {
            Emphasis::Bold => "**"@,
            Emphasis::Italic => "*"@,
            Emphasis::Underline => "</u>"@,
            Emphasis::Highlight => "</mark>"@,
        }
    }

    /// The marker written before the emphasised text.
    pub fn opening(&self) -> (res: &'static str)
        ensures
            res@ == self.spec_opening(),
    {
        match self {
            Emphasis::Bold => "**",
            Emphasis::Italic => "*",
            Emphasis::Underline => "<u>",
            Emphasis::Highlight => "<mark>",
        }
    }

    /// The marker written after the emphasised text.
    pub fn closing(&self) -> (res: &'static str)
        ensures
            res@ == self.spec_closing(),
    {
        match self {
            Emphasis::Bold => "**",
            Emphasis::Italic => "*",
            Emphasis::Underline => "</u>",
            Emphasis::Highlight => "</mark>",
        }
    }
}

/// What the bold and italic shortcuts write renders as they promise: a
/// word without stars wrapped in the bold markers is one bold run, and a
/// non-empty one wrapped in the italic markers one italic run, the markers
/// hidden.
pub proof fn law_wrapped_word_renders(w: Seq<char>)
    requires
        star_free(w),
        w.len() + 4 <= usize::MAX,
    ensures
        ({
            let n = w.len() as int;
            let b = Emphasis::Bold;
            let i = Emphasis::Italic;
            &&& markdown_spans_of(b.spec_opening() + w + b.spec_closing()) == seq![
                span(SpanStyle::Hidden, 0, 2),
                span(SpanStyle::Bold, 2, n + 2),
                span(SpanStyle::Hidden, n + 2, n + 4),
            ]
            &&& n > 0 ==> markdown_spans_of(i.spec_opening() + w + i.spec_closing()) == seq![
                span(SpanStyle::Hidden, 0, 1),
                span(SpanStyle::Italic, 1, n + 1),
                span(SpanStyle::Hidden, n + 1, n + 2),
            ]
        }),
{
    reveal_strlit("**");
    reveal_strlit("*");
    let n = w.len() as int;
    let e = Seq::<char>::empty();
    assert("**"@ =~= seq!['*', '*']);
    assert("*"@ =~= seq!['*']);
    assert(markdown_spans_of(e) =~= Seq::<Span>::empty());
    assert(shifted(Seq::<Span>::empty(), n + 4) =~= Seq::<Span>::empty());
    assert(shifted(Seq::<Span>::empty(), n + 2) =~= Seq::<Span>::empty());
    law_bold_prefix(w, e);
    assert(seq!['*', '*'] + w + seq!['*', '*'] + e =~= seq!['*', '*'] + w + seq!['*', '*']);
    if n > 0 {
        law_italic_prefix(w, e);
        assert(seq!['*'] + w + seq!['*'] + e =~= seq!['*'] + w + seq!['*']);
    }
}

/// An edit of a text buffer: the characters `[start, end)` are replaced by
/// `insert`; then, when `cursor` is given, the cursor is put at that offset.
pub struct WrapEdit {
    pub start: usize,
    pub end: usize,
    pub insert: String,
    pub cursor: Option<usize>,
}

/// The edit that wraps a selection in `prefix` and `suffix`. With a
/// selection `(start, end, selected)` the selected text is replaced by
/// `prefix + selected + suffix`; without one, `prefix + suffix` is inserted
/// at the cursor and the cursor is put between the two markers.
pub fn wrap_selection(selection: Option<(usize, usize, &str)>, cursor: usize, prefix: &str,
    suffix: &str) -> (res: WrapEdit)
    requires
        cursor + prefix@.len() <= usize::MAX,
    ensures
        match selection {
            Some((start, end, selected)) => {
                &&& res.start == start
                &&& res.end == end
                &&& res.insert@ == prefix@ + selected@ + suffix@
                &&& res.cursor is None
            },
            None => {
                &&& res.start == cursor
                &&& res.end == cursor
                &&& res.insert@ == prefix@ + suffix@
                &&& res.cursor == Some((cursor + prefix@.len()) as usize)
            },
        },
{
    let mut insert = String::new();
    push_str(&mut insert, prefix);
    match selection {
        Some((start, end, selected)) => {
            push_str(&mut insert, selected);
            push_str(&mut insert, suffix);
            WrapEdit { start, end, insert, cursor: None }
        },
        None => {
            push_str(&mut insert, suffix);
            let shift = prefix.unicode_len();
            WrapEdit { start: cursor, end: cursor, insert, cursor: Some(cursor + shift) }
        },
    }
}

} // verus!
